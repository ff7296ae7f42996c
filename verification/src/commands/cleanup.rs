//! `rqmd cleanup`: what was cleared.
use vstd::prelude::*;

use crate::color::Palette;
use crate::text::{number, search};
use crate::text::number::decimal_of;

verus! {

/// What was cleared.
#[derive(Clone, Copy, Debug, PartialEq, Eq, Structural)]
pub struct CleanupCounts {
    pub cached_responses: usize,
    pub orphaned_vectors: usize,
    pub inactive_documents: usize,
}

/// A check mark.
pub open spec fn check(p: Palette) -> Seq<char> {
    p.green_code() + "✓"@ + p.reset_code()
}

/// The report on what was cleared.
pub open spec fn report(c: CleanupCounts, p: Palette) -> Seq<char> {
    check(p) + " Cleared "@ + number::decimal(c.cached_responses as nat)
        + " cached API responses\n"@ + (if c.orphaned_vectors > 0 {
        check(p) + " Removed "@ + number::decimal(c.orphaned_vectors as nat)
            + " orphaned embedding chunks\n"@
    } else {
        p.dim_code() + "No orphaned embeddings to remove"@ + p.reset_code() + "\n"@
    }) + (if c.inactive_documents > 0 {
        check(p) + " Removed "@ + number::decimal(c.inactive_documents as nat)
            + " inactive document records\n"@
    } else {
        ""@
    }) + check(p) + " Database vacuumed\n"@
}

fn write_check(p: &Palette) -> (s: String)
    ensures
        s@ == check(*p),
{
    let mut s: String = p.green().to_owned();
    s.append("✓");
    s.append(p.reset());
    s
}

fn removed(p: &Palette, n: usize, rest: &str) -> (s: String)
    ensures
        s@ == check(*p) + " Removed "@ + number::decimal(n as nat) + rest@,
{
    let mut s: String = write_check(p);
    s.append(" Removed ");
    s.append(decimal_of(n as u128).as_str());
    s.append(rest);
    s
}

/// The report on what was cleared.
pub fn cleanup_report(c: &CleanupCounts, p: &Palette) -> (s: String)
    ensures
        s@ == report(*c, *p),
{
    let vectors: String = if c.orphaned_vectors > 0 {
        removed(p, c.orphaned_vectors, " orphaned embedding chunks\n")
    } else {
        let mut t: String = p.dim().to_owned();
        t.append("No orphaned embeddings to remove");
        t.append(p.reset());
        t.append("\n");
        t
    };
    let documents: String = if c.inactive_documents > 0 {
        removed(p, c.inactive_documents, " inactive document records\n")
    } else {
        "".to_owned()
    };
    let mut s: String = write_check(p);
    s.append(" Cleared ");
    s.append(decimal_of(c.cached_responses as u128).as_str());
    s.append(" cached API responses\n");
    s.append(vectors.as_str());
    s.append(documents.as_str());
    s.append(write_check(p).as_str());
    s.append(" Database vacuumed\n");
    s
}

// Laws.

/// The report gives the number of responses that were cleared, and those of the chunks and the
/// records that were removed, where any were.
pub proof fn law_report_gives_every_number(c: CleanupCounts, p: Palette)
    ensures
        search::holds_text(
            report(c, p),
            " Cleared "@ + number::decimal(c.cached_responses as nat) + " cached API responses\n"@,
        ),
        c.orphaned_vectors > 0 ==> search::holds_text(
            report(c, p),
            " Removed "@ + number::decimal(c.orphaned_vectors as nat)
                + " orphaned embedding chunks\n"@,
        ),
        c.orphaned_vectors == 0 ==> search::holds_text(
            report(c, p),
            "No orphaned embeddings to remove"@,
        ),
        c.inactive_documents > 0 ==> search::holds_text(
            report(c, p),
            " Removed "@ + number::decimal(c.inactive_documents as nat)
                + " inactive document records\n"@,
        ),
{
    let n = number::decimal(c.cached_responses as nat);
    let m = number::decimal(c.orphaned_vectors as nat);
    let k = number::decimal(c.inactive_documents as nat);
    let first = " Cleared "@ + n + " cached API responses\n"@;
    let second = if c.orphaned_vectors > 0 {
        check(p) + " Removed "@ + m + " orphaned embedding chunks\n"@
    } else {
        p.dim_code() + "No orphaned embeddings to remove"@ + p.reset_code() + "\n"@
    };
    let third = if c.inactive_documents > 0 {
        check(p) + " Removed "@ + k + " inactive document records\n"@
    } else {
        ""@
    };
    let end = " Database vacuumed\n"@;
    let a = check(p) + " Cleared "@ + n + " cached API responses\n"@;
    search::lemma_holds_three(check(p), " Cleared "@, n, " cached API responses\n"@);
    search::lemma_holds_longer(a, second, first);
    search::lemma_holds_longer(a + second, third, first);
    search::lemma_holds_longer(a + second + third, check(p), first);
    search::lemma_holds_longer(a + second + third + check(p), end, first);
    search::lemma_holds_between(a, second, third);
    search::lemma_holds_longer(a + second + third, check(p), second);
    search::lemma_holds_longer(a + second + third + check(p), end, second);
    search::lemma_holds_between(a + second, third, check(p));
    search::lemma_holds_longer(a + second + third + check(p), end, third);
    if c.orphaned_vectors > 0 {
        let t = " Removed "@ + m + " orphaned embedding chunks\n"@;
        search::lemma_holds_three(check(p), " Removed "@, m, " orphaned embedding chunks\n"@);
        search::lemma_holds_through(report(c, p), second, t);
    } else {
        let t = "No orphaned embeddings to remove"@;
        search::lemma_holds_between(p.dim_code(), t, p.reset_code());
        search::lemma_holds_longer(p.dim_code() + t + p.reset_code(), "\n"@, t);
        search::lemma_holds_through(report(c, p), second, t);
    }
    if c.inactive_documents > 0 {
        let t = " Removed "@ + k + " inactive document records\n"@;
        search::lemma_holds_three(check(p), " Removed "@, k, " inactive document records\n"@);
        search::lemma_holds_through(report(c, p), third, t);
    }
}

} // verus!
