//! `rqmd embed`: which limits are allowed, and the texts on the way.
use vstd::prelude::*;

use crate::cli;
use crate::cli::EmbedArgs;
use crate::color::Palette;
use crate::commands::query::strategy;
use crate::store_ops::ChunkStrategy;
use crate::text::{chars, number, search};
use crate::text::chars::{concatenate, pad_start, repeat_char};
use crate::text::number::decimal_of;

verus! {

/// Why the arguments are refused.
#[derive(Clone, Copy, Debug, PartialEq, Eq, Structural)]
pub enum EmbedArgError {
    /// More than one collection, and how many.
    TooManyCollections(usize),
    /// A batch of no documents.
    NoDocsPerBatch,
    /// A batch of no bytes.
    NoBatchBytes,
}

impl EmbedArgError {
    /// The message of an error.
    pub open spec fn text(self) -> Seq<char> {
        match self {
            EmbedArgError::TooManyCollections(n) => "embed accepts at most one --collection (got "@
                + number::decimal(n as nat) + ")"@,
            EmbedArgError::NoDocsPerBatch => "maxDocsPerBatch must be a positive integer"@,
            EmbedArgError::NoBatchBytes => "maxBatchBytes must be a positive integer"@,
        }
    }

    /// The message of an error.
    pub fn message(&self) -> (s: String)
        ensures
            s@ == self.text(),
    {
        match self {
            EmbedArgError::TooManyCollections(n) => {
                let mut s: String = "embed accepts at most one --collection (got ".to_owned();
                s.append(decimal_of(*n as u128).as_str());
                s.append(")");
                s
            },
            EmbedArgError::NoDocsPerBatch => "maxDocsPerBatch must be a positive integer".to_owned(),
            EmbedArgError::NoBatchBytes => "maxBatchBytes must be a positive integer".to_owned(),
        }
    }
}

/// What is to be embedded.
#[derive(Debug)]
pub struct EmbedPlan {
    pub force: bool,
    pub collection: Option<String>,
    pub max_docs_per_batch: Option<usize>,
    pub max_batch_bytes: Option<usize>,
    pub chunk_strategy: Option<ChunkStrategy>,
}

/// Why arguments are refused: the first of the reasons that holds.
pub open spec fn refusal(args: EmbedArgs) -> Option<EmbedArgError> {
    if args.collection@.len() > 1 {
        Some(EmbedArgError::TooManyCollections(args.collection@.len() as usize))
    } else if args.max_docs_per_batch == Some(0usize) {
        Some(EmbedArgError::NoDocsPerBatch)
    } else if args.max_batch_mb == Some(0usize) {
        Some(EmbedArgError::NoBatchBytes)
    } else {
        None
    }
}

/// What is to be embedded, or why the arguments are refused.
pub fn plan_embed(args: &EmbedArgs) -> (r: Result<EmbedPlan, EmbedArgError>)
    requires
        refusal(*args) is None && args.max_batch_mb is Some ==> args.max_batch_mb->0 * 1024 * 1024
            <= usize::MAX,
    ensures
        match r {
            Err(e) => refusal(*args) == Some(e),
            Ok(plan) => {
                &&& refusal(*args) is None
                &&& plan.force == args.force
                &&& chars::opt_string(plan.collection) == (if args.collection@.len() == 0 {
                    None
                } else {
                    Some(args.collection@[0]@)
                })
                &&& plan.max_docs_per_batch == args.max_docs_per_batch
                &&& plan.max_batch_bytes == (match args.max_batch_mb {
                    Some(mb) => Some((mb * 1024 * 1024) as usize),
                    None => None,
                })
                &&& plan.chunk_strategy == (match args.chunk_strategy {
                    Some(s) => Some(cli::strategy_of(s)),
                    None => None,
                })
            },
        },
{
    if args.collection.len() > 1 {
        return Err(EmbedArgError::TooManyCollections(args.collection.len()));
    }
    match args.max_docs_per_batch {
        Some(n) => if n == 0 {
            return Err(EmbedArgError::NoDocsPerBatch);
        },
        None => {},
    }
    match args.max_batch_mb {
        Some(n) => if n == 0 {
            return Err(EmbedArgError::NoBatchBytes);
        },
        None => {},
    }
    let collection: Option<String> = if args.collection.len() == 0 {
        None
    } else {
        Some(args.collection[0].clone())
    };
    let max_batch_bytes: Option<usize> = match args.max_batch_mb {
        Some(mb) => Some(mb * 1024 * 1024),
        None => None,
    };
    let chunk_strategy: Option<ChunkStrategy> = match args.chunk_strategy {
        Some(s) => Some(strategy(s)),
        None => None,
    };
    Ok(
        EmbedPlan {
            force: args.force,
            collection,
            max_docs_per_batch: args.max_docs_per_batch,
            max_batch_bytes,
            chunk_strategy,
        },
    )
}

fn coloured_line(code: &str, text: &str, p: &Palette) -> (s: String)
    ensures
        s@ == code@ + text@ + p.reset_code() + "\n"@,
{
    let mut s: String = code.to_owned();
    s.append(text);
    s.append(p.reset());
    s.append("\n");
    s
}

/// What is said where all embeddings are made anew.
pub fn force_text(force: bool, p: &Palette) -> (s: String)
    ensures
        s@ == if force {
            p.yellow_code() + "Force re-indexing: clearing all vectors..."@ + p.reset_code()
                + "\n"@
        } else {
            ""@
        },
{
    if force {
        coloured_line(p.yellow(), "Force re-indexing: clearing all vectors...", p)
    } else {
        "".to_owned()
    }
}

/// What is said where there is nothing to do: nothing is pending, and nothing is forced.
pub fn precheck(force: bool, pending: usize, p: &Palette) -> (r: Option<String>)
    ensures
        chars::opt_string(r) == if !force && pending == 0 {
            Some(
                p.green_code() + "✓ All content hashes already have embeddings."@ + p.reset_code()
                    + "\n"@,
            )
        } else {
            None
        },
{
    if !force && pending == 0 {
        Some(coloured_line(p.green(), "✓ All content hashes already have embeddings.", p))
    } else {
        None
    }
}

/// The head of the output: the model, and the limits where one is given. `max_bytes_text` is the
/// limit in bytes as it is written.
pub open spec fn head(
    plan: EmbedPlan,
    model: Seq<char>,
    default_docs: nat,
    max_bytes_text: Seq<char>,
    p: Palette,
) -> Seq<char> {
    p.dim_code() + "Model: "@ + model + p.reset_code() + "\n\n"@ + (
    if plan.max_docs_per_batch is Some || plan.max_batch_bytes is Some {
        p.dim_code() + "Batch: "@ + number::decimal(
            match plan.max_docs_per_batch {
                Some(n) => n as nat,
                None => default_docs,
            },
        ) + " docs / "@ + max_bytes_text + p.reset_code() + "\n\n"@
    } else {
        ""@
    })
}

/// The limit in bytes.
pub fn batch_bytes(plan: &EmbedPlan, default_bytes: usize) -> (n: usize)
    ensures
        n == (match plan.max_batch_bytes {
            Some(n) => n,
            None => default_bytes,
        }),
{
    match plan.max_batch_bytes {
        Some(n) => n,
        None => default_bytes,
    }
}

/// The head of the output.
pub fn head_text(
    plan: &EmbedPlan,
    model: &str,
    default_docs: usize,
    max_bytes_text: &str,
    p: &Palette,
) -> (s: String)
    ensures
        s@ == head(*plan, model@, default_docs as nat, max_bytes_text@, *p),
{
    let batch: String = if plan.max_docs_per_batch.is_some() || plan.max_batch_bytes.is_some() {
        let docs: usize = match plan.max_docs_per_batch {
            Some(n) => n,
            None => default_docs,
        };
        let mut t: String = p.dim().to_owned();
        t.append("Batch: ");
        t.append(decimal_of(docs as u128).as_str());
        t.append(" docs / ");
        t.append(max_bytes_text);
        t.append(p.reset());
        t.append("\n\n");
        t
    } else {
        "".to_owned()
    };
    let mut s: String = p.dim().to_owned();
    s.append("Model: ");
    s.append(model);
    s.append(p.reset());
    s.append("\n\n");
    s.append(batch.as_str());
    s
}

/// A bar of full and empty blocks.
pub open spec fn bar(filled: nat, width: nat) -> Seq<char> {
    let full = if filled < width {
        filled
    } else {
        width
    };
    chars::repeated('\u{2588}', full) + chars::repeated('\u{2591}', (width - full) as nat)
}

/// A bar of `width` blocks, of which up to `filled` are full.
pub fn render_progress_bar(filled: usize, width: usize) -> (s: String)
    ensures
        s@ == bar(filled as nat, width as nat),
{
    let full: usize = if filled < width {
        filled
    } else {
        width
    };
    let mut s: String = repeat_char('\u{2588}', full);
    s.append(repeat_char('\u{2591}', width - full).as_str());
    s
}

/// How far the work is.
#[derive(Clone, Copy, Debug, PartialEq, Eq, Structural)]
pub struct EmbedProgress {
    pub chunks_embedded: usize,
    pub bytes_processed: usize,
    pub total_bytes: usize,
    pub errors: usize,
}

/// How far the work is, as it is written.
#[derive(Clone, Debug)]
pub struct ProgressCells {
    /// The rounded percentage.
    pub percent: u64,
    /// How many of the thirty blocks are full.
    pub filled: usize,
    pub chunks: String,
    pub errors: String,
    pub bytes_processed: String,
    pub total_bytes: String,
    /// The bytes in a second, where any were processed.
    pub rate: Option<String>,
    /// The time that is left, where it can be told.
    pub eta: Option<String>,
}

/// The taskbar code of a percentage.
pub open spec fn taskbar(percent: nat) -> Seq<char> {
    "\x1b]9;4;1;"@ + number::decimal(percent) + "\x07"@
}

/// The line that shows how far the work is.
pub open spec fn progress_line(ep: EmbedProgress, c: ProgressCells, p: Palette) -> Seq<char> {
    "\r"@ + p.cyan_code() + bar(c.filled as nat, 30) + p.reset_code() + " "@ + p.bold_code()
        + chars::padded_start(number::decimal(c.percent as nat), 3) + "% input"@ + p.reset_code()
        + " "@ + p.dim_code() + c.chunks@ + " chunks"@ + (if ep.errors > 0 {
        " "@ + p.yellow_code() + c.errors@ + " err"@ + p.reset_code()
    } else {
        ""@
    }) + " · "@ + c.bytes_processed@ + "/"@ + c.total_bytes@ + " input"@ + " · "@ + (match c.rate {
        Some(r) => r@ + "/s"@,
        None => ".../s"@,
    }) + " · ETA "@ + (match c.eta {
        Some(e) => e@,
        None => "..."@,
    }) + p.reset_code() + "   "@
}

/// What is written to show how far the work is: nothing off a terminal, or where there is
/// nothing to process.
pub fn progress_text(ep: &EmbedProgress, c: &ProgressCells, is_terminal: bool, p: &Palette) -> (s:
    String)
    ensures
        s@ == if is_terminal && ep.total_bytes > 0 {
            taskbar(c.percent as nat) + progress_line(*ep, *c, *p)
        } else {
            ""@
        },
{
    if !is_terminal || ep.total_bytes == 0 {
        return "".to_owned();
    }
    let errors: String = if ep.errors > 0 {
        let mut t: String = " ".to_owned();
        t.append(p.yellow());
        t.append(c.errors.as_str());
        t.append(" err");
        t.append(p.reset());
        t
    } else {
        "".to_owned()
    };
    let rate: String = match &c.rate {
        Some(r) => {
            let mut t: String = r.clone();
            t.append("/s");
            t
        },
        None => ".../s".to_owned(),
    };
    let eta: String = match &c.eta {
        Some(e) => e.clone(),
        None => "...".to_owned(),
    };
    let percent: String = decimal_of(c.percent as u128);
    let mut line: String = "\r".to_owned();
    line.append(p.cyan());
    line.append(render_progress_bar(c.filled, 30).as_str());
    line.append(p.reset());
    line.append(" ");
    line.append(p.bold());
    line.append(pad_start(percent.as_str(), 3).as_str());
    line.append("% input");
    line.append(p.reset());
    line.append(" ");
    line.append(p.dim());
    line.append(c.chunks.as_str());
    line.append(" chunks");
    line.append(errors.as_str());
    line.append(" · ");
    line.append(c.bytes_processed.as_str());
    line.append("/");
    line.append(c.total_bytes.as_str());
    line.append(" input");
    line.append(" · ");
    line.append(rate.as_str());
    line.append(" · ETA ");
    line.append(eta.as_str());
    line.append(p.reset());
    line.append("   ");
    let mut s: String = "\x1b]9;4;1;".to_owned();
    s.append(percent.as_str());
    s.append("\x07");
    s.append(line.as_str());
    s
}

/// What is written before the work: the cursor goes, and on a terminal the taskbar shows that
/// work has begun.
pub fn progress_begin(is_terminal: bool) -> (s: String)
    ensures
        s@ == if is_terminal {
            "\x1b[?25l"@ + "\x1b]9;4;3\x07"@
        } else {
            "\x1b[?25l"@
        },
{
    let mut s: String = "\x1b[?25l".to_owned();
    if is_terminal {
        s.append("\x1b]9;4;3\x07");
    }
    s
}

/// What is written after the work: on a terminal the taskbar is cleared, and the cursor comes
/// back.
pub fn progress_end(is_terminal: bool) -> (s: String)
    ensures
        s@ == if is_terminal {
            "\x1b]9;4;0\x07"@ + "\x1b[?25h"@
        } else {
            "\x1b[?25h"@
        },
{
    if is_terminal {
        let mut s: String = "\x1b]9;4;0\x07".to_owned();
        s.append("\x1b[?25h");
        s
    } else {
        "\x1b[?25h".to_owned()
    }
}

/// A chunk that could not be embedded.
#[derive(Clone, Debug)]
pub struct EmbedFailure {
    pub path: String,
    pub seq: u64,
    pub attempts: u64,
    pub reason: String,
}

/// What came of the work.
#[derive(Debug)]
pub struct EmbedResult {
    pub docs_processed: usize,
    pub chunks_embedded: usize,
    pub errors: usize,
    pub failures: Vec<EmbedFailure>,
}

/// The line for a failure.
pub open spec fn failure_line(f: EmbedFailure, p: Palette) -> Seq<char> {
    "  "@ + p.dim_code() + f.path@ + "#"@ + number::decimal(f.seq as nat) + " ("@
        + number::decimal(f.attempts as nat) + " attempts): "@ + f.reason@ + p.reset_code() + "\n"@
}

/// The lines for up to eight failures.
pub open spec fn failure_lines(v: Seq<EmbedFailure>, p: Palette) -> Seq<Seq<char>> {
    Seq::new(
        if v.len() < 8 {
            v.len()
        } else {
            8
        },
        |i: int| failure_line(v[i], p),
    )
}

/// What is said of the failures; `errors` and `more` are the counts as they are written.
pub open spec fn failure_report(
    r: EmbedResult,
    errors: Seq<char>,
    more: Seq<char>,
    p: Palette,
) -> Seq<char> {
    if r.errors > 0 {
        p.yellow_code() + "⚠ "@ + errors + " chunks still failed after retries"@ + p.reset_code()
            + "\n"@ + chars::concatenated(failure_lines(r.failures@, p)) + (
        if r.failures@.len() > 8 {
            "  "@ + p.dim_code() + "...and "@ + more + " more"@ + p.reset_code() + "\n"@
        } else {
            ""@
        })
    } else {
        ""@
    }
}

/// What is said at the end; `duration`, `errors` and `more` as they are written.
pub open spec fn summary(
    r: EmbedResult,
    duration: Seq<char>,
    errors: Seq<char>,
    more: Seq<char>,
    p: Palette,
) -> Seq<char> {
    if r.chunks_embedded == 0 && r.docs_processed == 0 {
        p.green_code() + "✓ No non-empty documents to embed."@ + p.reset_code() + "\n"@
    } else {
        "\r"@ + p.green_code() + bar(30, 30) + p.reset_code() + " "@ + p.bold_code() + "100%"@
            + p.reset_code() + chars::repeated(' ', 36) + "\n"@ + "\n"@ + p.green_code()
            + "✓ Done!"@ + p.reset_code() + " Embedded "@ + p.bold_code() + number::decimal(
            r.chunks_embedded as nat,
        ) + p.reset_code() + " chunks from "@ + p.bold_code() + number::decimal(
            r.docs_processed as nat,
        ) + p.reset_code() + " documents in "@ + p.bold_code() + duration + p.reset_code() + "\n"@
            + failure_report(r, errors, more, p)
    }
}

fn failure_text(r: &EmbedResult, errors: &str, more: &str, p: &Palette) -> (s: String)
    ensures
        s@ == failure_report(*r, errors@, more@, *p),
{
    if r.errors == 0 {
        return "".to_owned();
    }
    let n: usize = if r.failures.len() < 8 {
        r.failures.len()
    } else {
        8
    };
    let mut lines: Vec<String> = Vec::new();
    for i in 0..n
        invariant
            n <= r.failures@.len(),
            lines@.len() == i,
            forall|k: int|
                0 <= k < i ==> (#[trigger] lines@[k])@ == failure_line(r.failures@[k], *p),
    {
        let f: &EmbedFailure = &r.failures[i];
        let mut t: String = "  ".to_owned();
        t.append(p.dim());
        t.append(f.path.as_str());
        t.append("#");
        t.append(decimal_of(f.seq as u128).as_str());
        t.append(" (");
        t.append(decimal_of(f.attempts as u128).as_str());
        t.append(" attempts): ");
        t.append(f.reason.as_str());
        t.append(p.reset());
        t.append("\n");
        lines.push(t);
    }
    assert(chars::texts(lines@) =~= failure_lines(r.failures@, *p));
    let rest: String = if r.failures.len() > 8 {
        let mut t: String = "  ".to_owned();
        t.append(p.dim());
        t.append("...and ");
        t.append(more);
        t.append(" more");
        t.append(p.reset());
        t.append("\n");
        t
    } else {
        "".to_owned()
    };
    let mut s: String = p.yellow().to_owned();
    s.append("⚠ ");
    s.append(errors);
    s.append(" chunks still failed after retries");
    s.append(p.reset());
    s.append("\n");
    s.append(concatenate(lines.as_slice()).as_str());
    s.append(rest.as_str());
    s
}

/// How many failures are not listed.
pub fn unlisted_failures(r: &EmbedResult) -> (n: usize)
    ensures
        n == (if r.failures@.len() > 8 {
            r.failures@.len() - 8
        } else {
            0
        }),
{
    if r.failures.len() > 8 {
        r.failures.len() - 8
    } else {
        0
    }
}

/// What is said at the end.
pub fn summary_text(r: &EmbedResult, duration: &str, errors: &str, more: &str, p: &Palette) -> (s:
    String)
    ensures
        s@ == summary(*r, duration@, errors@, more@, *p),
{
    if r.chunks_embedded == 0 && r.docs_processed == 0 {
        return coloured_line(p.green(), "✓ No non-empty documents to embed.", p);
    }
    let mut s: String = "\r".to_owned();
    s.append(p.green());
    s.append(render_progress_bar(30, 30).as_str());
    s.append(p.reset());
    s.append(" ");
    s.append(p.bold());
    s.append("100%");
    s.append(p.reset());
    s.append(repeat_char(' ', 36).as_str());
    s.append("\n");
    s.append("\n");
    s.append(p.green());
    s.append("✓ Done!");
    s.append(p.reset());
    s.append(" Embedded ");
    s.append(p.bold());
    s.append(decimal_of(r.chunks_embedded as u128).as_str());
    s.append(p.reset());
    s.append(" chunks from ");
    s.append(p.bold());
    s.append(decimal_of(r.docs_processed as u128).as_str());
    s.append(p.reset());
    s.append(" documents in ");
    s.append(p.bold());
    s.append(duration);
    s.append(p.reset());
    s.append("\n");
    s.append(failure_text(r, errors, more, p).as_str());
    s
}

// Laws.

/// A bar is as wide as it is asked to be, however much is done.
pub proof fn law_bars_keep_their_width(filled: nat, width: nat)
    ensures
        bar(filled, width).len() == width,
        filled >= width ==> bar(filled, width) == chars::repeated('\u{2588}', width),
{
    assert(chars::repeated('\u{2591}', 0) =~= Seq::empty());
    if filled >= width {
        assert(bar(filled, width) =~= chars::repeated('\u{2588}', width));
    }
}

/// A bar is full up to where the work is, and empty behind that.
pub proof fn law_bars_are_full_up_to_where_the_work_is(filled: nat, width: nat, i: int)
    requires
        0 <= i < width,
    ensures
        bar(filled, width)[i] == (if i < filled {
            '\u{2588}'
        } else {
            '\u{2591}'
        }),
{
}

/// Arguments are refused exactly where they name more than one collection, or ask for batches of
/// no documents or of no bytes.
pub proof fn law_refusals_are_for_these_reasons(args: EmbedArgs)
    requires
        args.collection@.len() <= usize::MAX,
    ensures
        refusal(args) is None <==> args.collection@.len() <= 1 && args.max_docs_per_batch
            != Some(0usize) && args.max_batch_mb != Some(0usize),
        refusal(args) matches Some(EmbedArgError::TooManyCollections(n)) ==> n
            == args.collection@.len() && n > 1,
        args.collection@.len() > 1 ==> refusal(args) is Some
            && refusal(args)->0 is TooManyCollections,
        refusal(args) matches Some(EmbedArgError::NoDocsPerBatch) ==> args.max_docs_per_batch
            == Some(0usize),
        refusal(args) matches Some(EmbedArgError::NoBatchBytes) ==> args.max_batch_mb
            == Some(0usize),
{
}

proof fn lemma_failure_line(f: EmbedFailure, p: Palette)
    ensures
        search::holds_text(failure_line(f, p), f.path@),
        search::holds_text(failure_line(f, p), f.reason@),
{
    let c0 = "  "@;
    let c1 = c0 + p.dim_code();
    let c2 = c1 + f.path@;
    let c3 = c2 + "#"@;
    let c4 = c3 + number::decimal(f.seq as nat);
    let c5 = c4 + " ("@;
    let c6 = c5 + number::decimal(f.attempts as nat);
    let c7 = c6 + " attempts): "@;
    let c8 = c7 + f.reason@;
    let c9 = c8 + p.reset_code();
    let c10 = c9 + "\n"@;
    search::lemma_holds_behind(c1, f.path@);
    search::lemma_holds_longer(c2, "#"@, f.path@);
    search::lemma_holds_longer(c3, number::decimal(f.seq as nat), f.path@);
    search::lemma_holds_longer(c4, " ("@, f.path@);
    search::lemma_holds_longer(c5, number::decimal(f.attempts as nat), f.path@);
    search::lemma_holds_longer(c6, " attempts): "@, f.path@);
    search::lemma_holds_longer(c7, f.reason@, f.path@);
    search::lemma_holds_longer(c8, p.reset_code(), f.path@);
    search::lemma_holds_longer(c9, "\n"@, f.path@);
    search::lemma_holds_behind(c7, f.reason@);
    search::lemma_holds_longer(c8, p.reset_code(), f.reason@);
    search::lemma_holds_longer(c9, "\n"@, f.reason@);
}

/// The first failures are listed, up to eight, each with its path and the reason, and with those
/// that are only counted they are all of them.
pub proof fn law_failures_are_listed_or_counted(
    r: EmbedResult,
    errors: Seq<char>,
    more: Seq<char>,
    p: Palette,
    i: int,
)
    requires
        r.errors > 0,
        0 <= i < r.failures@.len(),
        i < 8,
    ensures
        search::holds_text(failure_report(r, errors, more, p), r.failures@[i].path@),
        search::holds_text(failure_report(r, errors, more, p), r.failures@[i].reason@),
        r.failures@.len() > 8 ==> search::holds_text(
            failure_report(r, errors, more, p),
            "...and "@ + more + " more"@,
        ),
        failure_lines(r.failures@, p).len() + (if r.failures@.len() > 8 {
            r.failures@.len() - 8
        } else {
            0
        }) == r.failures@.len(),
{
    let f = r.failures@[i];
    let lines = failure_lines(r.failures@, p);
    let line = failure_line(f, p);
    assert(lines[i] == line);
    search::lemma_concatenated_holds(lines, i);
    lemma_failure_line(f, p);
    let all = chars::concatenated(lines);
    search::lemma_holds_through(all, line, f.path@);
    search::lemma_holds_through(all, line, f.reason@);
    let head = p.yellow_code() + "⚠ "@ + errors + " chunks still failed after retries"@
        + p.reset_code() + "\n"@;
    let rest = if r.failures@.len() > 8 {
        "  "@ + p.dim_code() + "...and "@ + more + " more"@ + p.reset_code() + "\n"@
    } else {
        ""@
    };
    search::lemma_holds_between(head, all, rest);
    search::lemma_holds_through(head + all + rest, all, f.path@);
    search::lemma_holds_through(head + all + rest, all, f.reason@);
    if r.failures@.len() > 8 {
        let note = "...and "@ + more + " more"@;
        let start = "  "@ + p.dim_code();
        assert(rest =~= start + note + (p.reset_code() + "\n"@));
        search::lemma_holds_between(start, note, p.reset_code() + "\n"@);

        search::lemma_holds_behind(head + all, rest);
        search::lemma_holds_through(head + all + rest, rest, note);
    }
}

/// What is said at the end gives the numbers of chunks and documents and the time, and ends with
/// what is said of the failures.
pub proof fn law_summary_gives_the_numbers(
    r: EmbedResult,
    duration: Seq<char>,
    errors: Seq<char>,
    more: Seq<char>,
    p: Palette,
)
    requires
        r.chunks_embedded > 0 || r.docs_processed > 0,
    ensures
        search::holds_text(
            summary(r, duration, errors, more, p),
            " Embedded "@ + p.bold_code() + number::decimal(r.chunks_embedded as nat)
                + p.reset_code() + " chunks from "@ + p.bold_code() + number::decimal(
                r.docs_processed as nat,
            ) + p.reset_code() + " documents in "@ + p.bold_code() + duration,
        ),
        search::holds_text(
            summary(r, duration, errors, more, p),
            failure_report(r, errors, more, p),
        ),
{
    let report = failure_report(r, errors, more, p);
    let head = "\r"@ + p.green_code() + bar(30, 30) + p.reset_code() + " "@ + p.bold_code()
        + "100%"@ + p.reset_code() + chars::repeated(' ', 36) + "\n"@ + "\n"@ + p.green_code()
        + "✓ Done!"@ + p.reset_code();
    let g0 = " Embedded "@;
    let g1 = g0 + p.bold_code();
    let g2 = g1 + number::decimal(r.chunks_embedded as nat);
    let g3 = g2 + p.reset_code();
    let g4 = g3 + " chunks from "@;
    let g5 = g4 + p.bold_code();
    let g6 = g5 + number::decimal(r.docs_processed as nat);
    let g7 = g6 + p.reset_code();
    let g8 = g7 + " documents in "@;
    let g9 = g8 + p.bold_code();
    let g10 = g9 + duration;
    search::lemma_appended(head, g9, duration);
    search::lemma_appended(head, g8, p.bold_code());
    search::lemma_appended(head, g7, " documents in "@);
    search::lemma_appended(head, g6, p.reset_code());
    search::lemma_appended(head, g5, number::decimal(r.docs_processed as nat));
    search::lemma_appended(head, g4, p.bold_code());
    search::lemma_appended(head, g3, " chunks from "@);
    search::lemma_appended(head, g2, p.reset_code());
    search::lemma_appended(head, g1, number::decimal(r.chunks_embedded as nat));
    search::lemma_appended(head, g0, p.bold_code());
    search::lemma_holds_behind(head, g10);
    search::lemma_holds_longer(head + g10, p.reset_code(), g10);
    search::lemma_holds_longer(head + g10 + p.reset_code(), "\n"@, g10);
    search::lemma_holds_longer(head + g10 + p.reset_code() + "\n"@, report, g10);
    search::lemma_holds_behind(head + g10 + p.reset_code() + "\n"@, report);
}

/// The head names the model and, where a limit is given, the number of documents in a batch.
pub proof fn law_head_names_the_model_and_the_limits(
    plan: EmbedPlan,
    model: Seq<char>,
    default_docs: nat,
    max_bytes_text: Seq<char>,
    p: Palette,
)
    ensures
        search::holds_text(
            head(plan, model, default_docs, max_bytes_text, p),
            "Model: "@ + model,
        ),
        plan.max_docs_per_batch matches Some(n) ==> search::holds_text(
            head(plan, model, default_docs, max_bytes_text, p),
            "Batch: "@ + number::decimal(n as nat) + " docs / "@ + max_bytes_text,
        ),
        plan.max_docs_per_batch is None && plan.max_batch_bytes is Some ==> search::holds_text(
            head(plan, model, default_docs, max_bytes_text, p),
            "Batch: "@ + number::decimal(default_docs) + " docs / "@ + max_bytes_text,
        ),
{
    let s = head(plan, model, default_docs, max_bytes_text, p);
    let name = "Model: "@ + model;
    let docs = match plan.max_docs_per_batch {
        Some(n) => n as nat,
        None => default_docs,
    };
    let limits = "Batch: "@ + number::decimal(docs) + " docs / "@ + max_bytes_text;
    let batch = if plan.max_docs_per_batch is Some || plan.max_batch_bytes is Some {
        p.dim_code() + "Batch: "@ + number::decimal(docs) + " docs / "@ + max_bytes_text
            + p.reset_code() + "\n\n"@
    } else {
        ""@
    };
    let top = p.dim_code() + "Model: "@ + model + p.reset_code() + "\n\n"@;
    assert(top =~= p.dim_code() + name + (p.reset_code() + "\n\n"@));
    search::lemma_holds_between(p.dim_code(), name, p.reset_code() + "\n\n"@);
    search::lemma_holds_longer(top, batch, name);
    if plan.max_docs_per_batch is Some || plan.max_batch_bytes is Some {
        assert(batch =~= p.dim_code() + limits + (p.reset_code() + "\n\n"@));
        search::lemma_holds_between(p.dim_code(), limits, p.reset_code() + "\n\n"@);
        search::lemma_holds_behind(top, batch);
        search::lemma_holds_through(top + batch, batch, limits);
    }
}

/// The line of progress shows the bar, the percentage, the chunks, what was processed of the
/// whole, the rate and the time that is left, as far as they are known, and the errors where there
/// are any.
#[verifier::spinoff_prover]
#[verifier::rlimit(40)]
pub proof fn law_progress_shows_how_far_the_work_is(ep: EmbedProgress, c: ProgressCells, p: Palette)
    ensures
        search::holds_text(progress_line(ep, c, p), bar(c.filled as nat, 30)),
        search::holds_text(
            progress_line(ep, c, p),
            chars::padded_start(number::decimal(c.percent as nat), 3) + "% input"@,
        ),
        search::holds_text(progress_line(ep, c, p), c.chunks@ + " chunks"@),
        search::holds_text(
            progress_line(ep, c, p),
            c.bytes_processed@ + "/"@ + c.total_bytes@ + " input"@,
        ),
        c.rate matches Some(r) ==> search::holds_text(progress_line(ep, c, p), r@ + "/s"@),
        c.eta matches Some(e) ==> search::holds_text(progress_line(ep, c, p), " · ETA "@ + e@),
        ep.errors > 0 ==> search::holds_text(progress_line(ep, c, p), c.errors@ + " err"@),
{
    let errors = if ep.errors > 0 {
        " "@ + p.yellow_code() + c.errors@ + " err"@ + p.reset_code()
    } else {
        ""@
    };
    let rate = match c.rate {
        Some(r) => r@ + "/s"@,
        None => ".../s"@,
    };
    let eta = match c.eta {
        Some(e) => e@,
        None => "..."@,
    };
    let c0 = "\r"@;
    let c1 = c0 + p.cyan_code();
    let c2 = c1 + bar(c.filled as nat, 30);
    let c3 = c2 + p.reset_code();
    let c4 = c3 + " "@;
    let c5 = c4 + p.bold_code();
    let c6 = c5 + chars::padded_start(number::decimal(c.percent as nat), 3);
    let c7 = c6 + "% input"@;
    let c8 = c7 + p.reset_code();
    let c9 = c8 + " "@;
    let c10 = c9 + p.dim_code();
    let c11 = c10 + c.chunks@;
    let c12 = c11 + " chunks"@;
    let c13 = c12 + errors;
    let c14 = c13 + " · "@;
    let c15 = c14 + c.bytes_processed@;
    let c16 = c15 + "/"@;
    let c17 = c16 + c.total_bytes@;
    let c18 = c17 + " input"@;
    let c19 = c18 + " · "@;
    let c20 = c19 + rate;
    let c21 = c20 + " · ETA "@;
    let c22 = c21 + eta;
    let c23 = c22 + p.reset_code();
    let c24 = c23 + "   "@;
    search::lemma_holds_behind(c1, bar(c.filled as nat, 30));
    search::lemma_holds_longer(c2, p.reset_code(), bar(c.filled as nat, 30));
    search::lemma_holds_longer(c3, " "@, bar(c.filled as nat, 30));
    search::lemma_holds_longer(c4, p.bold_code(), bar(c.filled as nat, 30));
    search::lemma_holds_longer(c5, chars::padded_start(number::decimal(c.percent as nat), 3), bar(c.filled as nat, 30));
    search::lemma_holds_longer(c6, "% input"@, bar(c.filled as nat, 30));
    search::lemma_holds_longer(c7, p.reset_code(), bar(c.filled as nat, 30));
    search::lemma_holds_longer(c8, " "@, bar(c.filled as nat, 30));
    search::lemma_holds_longer(c9, p.dim_code(), bar(c.filled as nat, 30));
    search::lemma_holds_longer(c10, c.chunks@, bar(c.filled as nat, 30));
    search::lemma_holds_longer(c11, " chunks"@, bar(c.filled as nat, 30));
    search::lemma_holds_longer(c12, errors, bar(c.filled as nat, 30));
    search::lemma_holds_longer(c13, " · "@, bar(c.filled as nat, 30));
    search::lemma_holds_longer(c14, c.bytes_processed@, bar(c.filled as nat, 30));
    search::lemma_holds_longer(c15, "/"@, bar(c.filled as nat, 30));
    search::lemma_holds_longer(c16, c.total_bytes@, bar(c.filled as nat, 30));
    search::lemma_holds_longer(c17, " input"@, bar(c.filled as nat, 30));
    search::lemma_holds_longer(c18, " · "@, bar(c.filled as nat, 30));
    search::lemma_holds_longer(c19, rate, bar(c.filled as nat, 30));
    search::lemma_holds_longer(c20, " · ETA "@, bar(c.filled as nat, 30));
    search::lemma_holds_longer(c21, eta, bar(c.filled as nat, 30));
    search::lemma_holds_longer(c22, p.reset_code(), bar(c.filled as nat, 30));
    search::lemma_holds_longer(c23, "   "@, bar(c.filled as nat, 30));
    search::lemma_holds_two(c5, chars::padded_start(number::decimal(c.percent as nat), 3), "% input"@);
    search::lemma_holds_longer(c7, p.reset_code(), chars::padded_start(number::decimal(c.percent as nat), 3) + "% input"@);
    search::lemma_holds_longer(c8, " "@, chars::padded_start(number::decimal(c.percent as nat), 3) + "% input"@);
    search::lemma_holds_longer(c9, p.dim_code(), chars::padded_start(number::decimal(c.percent as nat), 3) + "% input"@);
    search::lemma_holds_longer(c10, c.chunks@, chars::padded_start(number::decimal(c.percent as nat), 3) + "% input"@);
    search::lemma_holds_longer(c11, " chunks"@, chars::padded_start(number::decimal(c.percent as nat), 3) + "% input"@);
    search::lemma_holds_longer(c12, errors, chars::padded_start(number::decimal(c.percent as nat), 3) + "% input"@);
    search::lemma_holds_longer(c13, " · "@, chars::padded_start(number::decimal(c.percent as nat), 3) + "% input"@);
    search::lemma_holds_longer(c14, c.bytes_processed@, chars::padded_start(number::decimal(c.percent as nat), 3) + "% input"@);
    search::lemma_holds_longer(c15, "/"@, chars::padded_start(number::decimal(c.percent as nat), 3) + "% input"@);
    search::lemma_holds_longer(c16, c.total_bytes@, chars::padded_start(number::decimal(c.percent as nat), 3) + "% input"@);
    search::lemma_holds_longer(c17, " input"@, chars::padded_start(number::decimal(c.percent as nat), 3) + "% input"@);
    search::lemma_holds_longer(c18, " · "@, chars::padded_start(number::decimal(c.percent as nat), 3) + "% input"@);
    search::lemma_holds_longer(c19, rate, chars::padded_start(number::decimal(c.percent as nat), 3) + "% input"@);
    search::lemma_holds_longer(c20, " · ETA "@, chars::padded_start(number::decimal(c.percent as nat), 3) + "% input"@);
    search::lemma_holds_longer(c21, eta, chars::padded_start(number::decimal(c.percent as nat), 3) + "% input"@);
    search::lemma_holds_longer(c22, p.reset_code(), chars::padded_start(number::decimal(c.percent as nat), 3) + "% input"@);
    search::lemma_holds_longer(c23, "   "@, chars::padded_start(number::decimal(c.percent as nat), 3) + "% input"@);
    search::lemma_holds_two(c10, c.chunks@, " chunks"@);
    search::lemma_holds_longer(c12, errors, c.chunks@ + " chunks"@);
    search::lemma_holds_longer(c13, " · "@, c.chunks@ + " chunks"@);
    search::lemma_holds_longer(c14, c.bytes_processed@, c.chunks@ + " chunks"@);
    search::lemma_holds_longer(c15, "/"@, c.chunks@ + " chunks"@);
    search::lemma_holds_longer(c16, c.total_bytes@, c.chunks@ + " chunks"@);
    search::lemma_holds_longer(c17, " input"@, c.chunks@ + " chunks"@);
    search::lemma_holds_longer(c18, " · "@, c.chunks@ + " chunks"@);
    search::lemma_holds_longer(c19, rate, c.chunks@ + " chunks"@);
    search::lemma_holds_longer(c20, " · ETA "@, c.chunks@ + " chunks"@);
    search::lemma_holds_longer(c21, eta, c.chunks@ + " chunks"@);
    search::lemma_holds_longer(c22, p.reset_code(), c.chunks@ + " chunks"@);
    search::lemma_holds_longer(c23, "   "@, c.chunks@ + " chunks"@);
    search::lemma_holds_behind(c12, errors);
    search::lemma_holds_longer(c13, " · "@, errors);
    search::lemma_holds_longer(c14, c.bytes_processed@, errors);
    search::lemma_holds_longer(c15, "/"@, errors);
    search::lemma_holds_longer(c16, c.total_bytes@, errors);
    search::lemma_holds_longer(c17, " input"@, errors);
    search::lemma_holds_longer(c18, " · "@, errors);
    search::lemma_holds_longer(c19, rate, errors);
    search::lemma_holds_longer(c20, " · ETA "@, errors);
    search::lemma_holds_longer(c21, eta, errors);
    search::lemma_holds_longer(c22, p.reset_code(), errors);
    search::lemma_holds_longer(c23, "   "@, errors);
    search::lemma_holds_four(c14, c.bytes_processed@, "/"@, c.total_bytes@, " input"@);
    search::lemma_holds_longer(c18, " · "@, c.bytes_processed@ + "/"@ + c.total_bytes@ + " input"@);
    search::lemma_holds_longer(c19, rate, c.bytes_processed@ + "/"@ + c.total_bytes@ + " input"@);
    search::lemma_holds_longer(c20, " · ETA "@, c.bytes_processed@ + "/"@ + c.total_bytes@ + " input"@);
    search::lemma_holds_longer(c21, eta, c.bytes_processed@ + "/"@ + c.total_bytes@ + " input"@);
    search::lemma_holds_longer(c22, p.reset_code(), c.bytes_processed@ + "/"@ + c.total_bytes@ + " input"@);
    search::lemma_holds_longer(c23, "   "@, c.bytes_processed@ + "/"@ + c.total_bytes@ + " input"@);
    search::lemma_holds_behind(c19, rate);
    search::lemma_holds_longer(c20, " · ETA "@, rate);
    search::lemma_holds_longer(c21, eta, rate);
    search::lemma_holds_longer(c22, p.reset_code(), rate);
    search::lemma_holds_longer(c23, "   "@, rate);
    search::lemma_holds_two(c20, " · ETA "@, eta);
    search::lemma_holds_longer(c22, p.reset_code(), " · ETA "@ + eta);
    search::lemma_holds_longer(c23, "   "@, " · ETA "@ + eta);
    if ep.errors > 0 {
        let before = " "@ + p.yellow_code();
        let text = c.errors@ + " err"@;
        search::lemma_holds_two(before, c.errors@, " err"@);
        search::lemma_holds_longer(before + c.errors@ + " err"@, p.reset_code(), text);
        search::lemma_holds_through(c24, errors, text);
    }
}

/// The taskbar is told the percentage.
pub proof fn law_taskbar_shows_the_percentage(percent: nat)
    ensures
        search::holds_text(taskbar(percent), ";"@ + number::decimal(percent)),
{
    reveal_strlit(";");
    reveal_strlit("\x1b]9;4;1;");
    let head = "\x1b]9;4;1;"@;
    let d = number::decimal(percent);
    let s = taskbar(percent);
    assert(s.subrange(7, (8 + d.len()) as int) =~= ";"@ + d);
    assert(search::occurs_at(s, ";"@ + d, 7));
}

} // verus!
