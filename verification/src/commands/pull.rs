//! `rqmd pull`: which models are downloaded, and what is said of them.
use vstd::prelude::*;

use crate::color::Palette;
use crate::llm::config::ResolvedModels;
use crate::text::{chars, search};
use crate::text::chars::concatenate;

verus! {

/// The models that are downloaded, in order.
pub fn models_to_pull(uris: &ResolvedModels) -> (r: Vec<String>)
    ensures
        chars::texts(r@) == seq![uris.embed@, uris.generate@, uris.rerank@],
{
    let mut r: Vec<String> = Vec::new();
    r.push(uris.embed.clone());
    r.push(uris.generate.clone());
    r.push(uris.rerank.clone());
    assert(chars::texts(r@) =~= seq![uris.embed@, uris.generate@, uris.rerank@]);
    r
}

/// What is said before the download.
pub fn pull_head(p: &Palette) -> (s: String)
    ensures
        s@ == p.bold_code() + "Pulling models"@ + p.reset_code() + "\n"@,
{
    let mut s: String = p.bold().to_owned();
    s.append("Pulling models");
    s.append(p.reset());
    s.append("\n");
    s
}

/// A downloaded model: its name, its path and its size as they are written.
#[derive(Clone, Debug)]
pub struct PulledModel {
    pub model: String,
    pub path: String,
    pub size: String,
    pub refreshed: bool,
}

/// The line for a model.
pub open spec fn pulled_line(r: PulledModel, p: Palette) -> Seq<char> {
    p.dim_code() + "-"@ + p.reset_code() + " "@ + r.model@ + " -> "@ + r.path@ + " ("@ + r.size@
        + ", "@ + (if r.refreshed {
        "refreshed"@
    } else {
        "cached/checked"@
    }) + ")\n"@
}

/// The lines for the models.
pub open spec fn pulled_lines(v: Seq<PulledModel>, p: Palette) -> Seq<Seq<char>> {
    Seq::new(v.len(), |i: int| pulled_line(v[i], p))
}

/// What is said of the models.
pub fn pull_report(results: &[PulledModel], p: &Palette) -> (s: String)
    ensures
        s@ == chars::concatenated(pulled_lines(results@, *p)),
{
    let mut lines: Vec<String> = Vec::new();
    for i in 0..results.len()
        invariant
            lines@.len() == i,
            forall|k: int| 0 <= k < i ==> (#[trigger] lines@[k])@ == pulled_line(results@[k], *p),
    {
        let note: &str = if results[i].refreshed {
            "refreshed"
        } else {
            "cached/checked"
        };
        let mut t: String = p.dim().to_owned();
        t.append("-");
        t.append(p.reset());
        t.append(" ");
        t.append(results[i].model.as_str());
        t.append(" -> ");
        t.append(results[i].path.as_str());
        t.append(" (");
        t.append(results[i].size.as_str());
        t.append(", ");
        t.append(note);
        t.append(")\n");
        lines.push(t);
    }
    assert(chars::texts(lines@) =~= pulled_lines(results@, *p));
    concatenate(lines.as_slice())
}

// Laws.

proof fn lemma_pulled_line(r: PulledModel, p: Palette)
    ensures
        search::holds_text(pulled_line(r, p), r.model@ + " -> "@ + r.path@),
        r.refreshed ==> search::holds_text(pulled_line(r, p), r.size@ + ", "@ + "refreshed"@),
        !r.refreshed ==> search::holds_text(pulled_line(r, p), r.size@ + ", "@ + "cached/checked"@),
{
    let note = if r.refreshed {
        "refreshed"@
    } else {
        "cached/checked"@
    };
    let c0 = p.dim_code();
    let c1 = c0 + "-"@;
    let c2 = c1 + p.reset_code();
    let c3 = c2 + " "@;
    let c4 = c3 + r.model@;
    let c5 = c4 + " -> "@;
    let c6 = c5 + r.path@;
    let c7 = c6 + " ("@;
    let c8 = c7 + r.size@;
    let c9 = c8 + ", "@;
    let c10 = c9 + note;
    let c11 = c10 + ")\n"@;
    search::lemma_holds_three(c3, r.model@, " -> "@, r.path@);
    search::lemma_holds_longer(c6, " ("@, r.model@ + " -> "@ + r.path@);
    search::lemma_holds_longer(c7, r.size@, r.model@ + " -> "@ + r.path@);
    search::lemma_holds_longer(c8, ", "@, r.model@ + " -> "@ + r.path@);
    search::lemma_holds_longer(c9, note, r.model@ + " -> "@ + r.path@);
    search::lemma_holds_longer(c10, ")\n"@, r.model@ + " -> "@ + r.path@);
    search::lemma_holds_three(c7, r.size@, ", "@, note);
    search::lemma_holds_longer(c10, ")\n"@, r.size@ + ", "@ + note);
}

/// Every model is reported with its name, its path, its size and whether it was downloaded anew.
pub proof fn law_every_model_is_reported(v: Seq<PulledModel>, p: Palette, i: int)
    requires
        0 <= i < v.len(),
    ensures
        search::holds_text(
            chars::concatenated(pulled_lines(v, p)),
            v[i].model@ + " -> "@ + v[i].path@,
        ),
        v[i].refreshed ==> search::holds_text(
            chars::concatenated(pulled_lines(v, p)),
            v[i].size@ + ", "@ + "refreshed"@,
        ),
        !v[i].refreshed ==> search::holds_text(
            chars::concatenated(pulled_lines(v, p)),
            v[i].size@ + ", "@ + "cached/checked"@,
        ),
{
    let lines = pulled_lines(v, p);
    let all = chars::concatenated(lines);
    lemma_pulled_line(v[i], p);
    assert(lines[i] == pulled_line(v[i], p));
    search::lemma_concatenated_holds(lines, i);
    search::lemma_holds_through(all, lines[i], v[i].model@ + " -> "@ + v[i].path@);
    if v[i].refreshed {
        search::lemma_holds_through(all, lines[i], v[i].size@ + ", "@ + "refreshed"@);
    } else {
        search::lemma_holds_through(all, lines[i], v[i].size@ + ", "@ + "cached/checked"@);
    }
}

} // verus!
