//! Precision, recall, reciprocal rank and F1 of search results against expected files.
use vstd::prelude::*;

use crate::lists;
use crate::text::{chars, search};
use crate::text::chars::{chars_of, same_text, string_between, strip_end, strip_start};
use crate::text::search::{ends_with, find_after, starts_with};

verus! {

/// A path without `qmd://` and the collection behind it.
pub open spec fn without_scheme(p: Seq<char>) -> Seq<char> {
    if search::begins_with(p, "qmd://"@) {
        let rest = p.skip("qmd://"@.len() as int);
        match search::after_first(rest, '/') {
            Some(path) => path,
            None => rest,
        }
    } else {
        p
    }
}

/// The form in which paths are compared: without scheme and collection, in lower case, without
/// slashes at either end.
pub open spec fn normal_path(p: Seq<char>) -> Seq<char> {
    chars::stripped_end(chars::stripped_start(chars::lowercase(without_scheme(p)), '/'), '/')
}

/// Whether two paths in normal form name the same file: they are equal, or one ends with the
/// other.
pub open spec fn same_file(a: Seq<char>, b: Seq<char>) -> bool {
    a == b || search::ends_in(a, b) || search::ends_in(b, a)
}

/// Whether a result is an expected file.
pub open spec fn is_match(result: Seq<char>, expected: Seq<char>) -> bool {
    same_file(normal_path(result), normal_path(expected))
}

/// `p` without `qmd://` and the collection behind it.
pub fn strip_scheme(p: &str) -> (r: String)
    ensures
        r@ == without_scheme(p@),
{
    if !starts_with(p, "qmd://") {
        return p.to_owned();
    }
    let v: Vec<char> = chars_of(p);
    let n: usize = chars_of("qmd://").len();
    match find_after(v.as_slice(), '/', n) {
        Some(i) => {
            assert(v@.subrange(i as int, v@.len() as int) =~= v@.skip(i as int));
            string_between(v.as_slice(), i, v.len())
        },
        None => {
            assert(v@.subrange(n as int, v@.len() as int) =~= v@.skip(n as int));
            string_between(v.as_slice(), n, v.len())
        },
    }
}

/// The form in which `p` is compared with other paths.
pub fn normalize_path(p: &str) -> (r: String)
    ensures
        r@ == normal_path(p@),
{
    let stripped: String = strip_scheme(p);
    let lower: String = stripped.as_str().to_lowercase();
    strip_end(strip_start(lower.as_str(), '/').as_str(), '/')
}

/// Whether two paths in normal form name the same file.
pub fn normal_paths_match(a: &str, b: &str) -> (r: bool)
    ensures
        r == same_file(a@, b@),
{
    same_text(a, b) || ends_with(a, b) || ends_with(b, a)
}

/// Whether a result is an expected file.
pub fn paths_match(result: &str, expected: &str) -> (r: bool)
    ensures
        r == is_match(result@, expected@),
{
    let nr: String = normalize_path(result);
    let ne: String = normalize_path(expected);
    normal_paths_match(nr.as_str(), ne.as_str())
}

/// Whether `expected` is among the results.
pub open spec fn is_found(results: Seq<Seq<char>>, expected: Seq<char>) -> bool {
    exists|i: int| 0 <= i < results.len() && is_match(#[trigger] results[i], expected)
}

/// Whether `result` is one of the expected files.
pub open spec fn is_relevant(result: Seq<char>, expected: Seq<Seq<char>>) -> bool {
    exists|i: int| 0 <= i < expected.len() && is_match(result, #[trigger] expected[i])
}

/// The expected files that are among the results, or those that are not, in order.
pub open spec fn split_found(
    expected: Seq<Seq<char>>,
    results: Seq<Seq<char>>,
    found: bool,
) -> Seq<Seq<char>>
    decreases expected.len(),
{
    if expected.len() == 0 {
        Seq::empty()
    } else {
        let before = split_found(expected.drop_last(), results, found);
        if is_found(results, expected.last()) == found {
            before.push(expected.last())
        } else {
            before
        }
    }
}

/// How many of the expected files are among the first `k` results.
pub open spec fn hits(results: Seq<Seq<char>>, expected: Seq<Seq<char>>, k: nat) -> nat {
    split_found(
        expected,
        results.take(if k < results.len() { k as int } else { results.len() as int }),
        true,
    ).len()
}

/// A fraction.
#[derive(Clone, Copy, Debug, PartialEq, Eq, Structural)]
pub struct Ratio {
    pub num: u128,
    pub den: u128,
}

/// `num / den`, or zero where `den` is zero.
pub open spec fn ratio(num: nat, den: nat) -> Ratio {
    if den > 0 {
        Ratio { num: num as u128, den: den as u128 }
    } else {
        Ratio { num: 0, den: 1 }
    }
}

fn ratio_of(num: usize, den: usize) -> (r: Ratio)
    ensures
        r == ratio(num as nat, den as nat),
{
    if den > 0 {
        Ratio { num: num as u128, den: den as u128 }
    } else {
        Ratio { num: 0, den: 1 }
    }
}

/// The reciprocal of the rank, counted from one, of the first relevant one of the first `k`
/// results; zero where none is.
pub open spec fn reciprocal_rank(
    results: Seq<Seq<char>>,
    expected: Seq<Seq<char>>,
    k: int,
) -> Ratio
    decreases k,
{
    if k <= 0 {
        Ratio { num: 0, den: 1 }
    } else {
        let before = reciprocal_rank(results, expected, k - 1);
        if before.num == 0 && is_relevant(results[k - 1], expected) {
            Ratio { num: 1, den: k as u128 }
        } else {
            before
        }
    }
}

/// The harmonic mean of the precision `h / d` and the recall `m / n`: `2hm / (hn + md)`.
pub open spec fn harmonic_mean(h: nat, d: nat, m: nat, n: nat) -> Ratio {
    ratio(2 * h * m, h * n + m * d)
}

/// How well the results of one query match its expected files.
#[derive(Clone, Debug)]
pub struct ScoreMetrics {
    pub precision_at_k: Ratio,
    pub recall: Ratio,
    pub recall_at_1: Ratio,
    pub recall_at_3: Ratio,
    pub recall_at_5: Ratio,
    pub mrr: Ratio,
    pub f1: Ratio,
    pub hits_at_k: usize,
    pub matched_files: Vec<String>,
    pub unmatched_expected_files: Vec<String>,
}

/// The lesser of two numbers.
pub open spec fn lesser(a: nat, b: nat) -> nat {
    if a <= b {
        a
    } else {
        b
    }
}

impl ScoreMetrics {
    /// Whether these are the metrics of the results against the expected files.
    pub open spec fn describes(
        self,
        results: Seq<Seq<char>>,
        expected: Seq<Seq<char>>,
        top_k: nat,
    ) -> bool {
        let n = expected.len();
        let d = lesser(top_k, n);
        let h = hits(results, expected, top_k);
        let matched = split_found(expected, results, true);
        &&& self.hits_at_k == h
        &&& chars::texts(self.matched_files@) == matched
        &&& chars::texts(self.unmatched_expected_files@) == split_found(expected, results, false)
        &&& self.precision_at_k == ratio(h, d)
        &&& self.recall == ratio(matched.len(), n)
        &&& self.recall_at_1 == ratio(hits(results, expected, 1), n)
        &&& self.recall_at_3 == ratio(hits(results, expected, 3), n)
        &&& self.recall_at_5 == ratio(hits(results, expected, 5), n)
        &&& self.mrr == reciprocal_rank(results, expected, results.len() as int)
        &&& self.f1 == harmonic_mean(h, d, matched.len(), n)
    }
}

/// Whether `expected` is among the first `k` results.
fn found_within(results: &[String], expected: &str, k: usize) -> (r: bool)
    requires
        k <= results@.len(),
    ensures
        r == is_found(chars::texts(results@).take(k as int), expected@),
{
    let ghost top = chars::texts(results@).take(k as int);
    for i in 0..k
        invariant
            k <= results@.len(),
            top == chars::texts(results@).take(k as int),
            forall|j: int| 0 <= j < i ==> !is_match(#[trigger] top[j], expected@),
    {
        assert(top[i as int] == results@[i as int]@);
        if paths_match(results[i].as_str(), expected) {
            return true;
        }
    }
    false
}

/// How many of the expected files are among the first `k` results.
pub fn hits_within(result_files: &[String], expected_files: &[String], k: usize) -> (n: usize)
    ensures
        n == hits(chars::texts(result_files@), chars::texts(expected_files@), k as nat),
        n <= expected_files@.len(),
{
    let top: usize = if k < result_files.len() {
        k
    } else {
        result_files.len()
    };
    let ghost results = chars::texts(result_files@).take(top as int);
    let ghost expected = chars::texts(expected_files@);
    let mut n: usize = 0;
    assert(expected.take(0) =~= Seq::empty());
    for i in 0..expected_files.len()
        invariant
            top <= result_files@.len(),
            results == chars::texts(result_files@).take(top as int),
            expected == chars::texts(expected_files@),
            n == split_found(expected.take(i as int), results, true).len(),
            n <= i,
    {
        assert(expected.take(i + 1).drop_last() =~= expected.take(i as int));
        if found_within(result_files, expected_files[i].as_str(), top) {
            n = n + 1;
        }
    }
    assert(expected.take(expected.len() as int) =~= expected);
    n
}

/// Whether `result` is one of the expected files.
fn relevant(result: &str, expected_files: &[String]) -> (r: bool)
    ensures
        r == is_relevant(result@, chars::texts(expected_files@)),
{
    let ghost expected = chars::texts(expected_files@);
    for i in 0..expected_files.len()
        invariant
            expected == chars::texts(expected_files@),
            forall|j: int| 0 <= j < i ==> !is_match(result@, #[trigger] expected[j]),
    {
        assert(expected[i as int] == expected_files@[i as int]@);
        if paths_match(result, expected_files[i].as_str()) {
            return true;
        }
    }
    false
}

/// The reciprocal of the rank of the first relevant result.
fn mean_reciprocal_rank(result_files: &[String], expected_files: &[String]) -> (r: Ratio)
    ensures
        r == reciprocal_rank(
            chars::texts(result_files@),
            chars::texts(expected_files@),
            result_files@.len() as int,
        ),
{
    let ghost results = chars::texts(result_files@);
    let ghost expected = chars::texts(expected_files@);
    let mut r: Ratio = Ratio { num: 0, den: 1 };
    for i in 0..result_files.len()
        invariant
            results == chars::texts(result_files@),
            expected == chars::texts(expected_files@),
            r == reciprocal_rank(results, expected, i as int),
            r.num == 0 || r.num == 1,
    {
        assert(results[i as int] == result_files@[i as int]@);
        if r.num == 0 && relevant(result_files[i].as_str(), expected_files) {
            r = Ratio { num: 1, den: (i + 1) as u128 };
        }
    }
    r
}

/// The F1 of the precision `h / d` and the recall `m / n`.
fn f1_of(h: usize, d: usize, m: usize, n: usize) -> (r: Ratio)
    requires
        h <= isize::MAX,
        d <= isize::MAX,
        m <= isize::MAX,
        n <= isize::MAX,
    ensures
        r == harmonic_mean(h as nat, d as nat, m as nat, n as nat),
{
    let (h, d, m, n): (u128, u128, u128, u128) = (h as u128, d as u128, m as u128, n as u128);
    assert(h * m <= 0x7fff_ffff_ffff_ffff * 0x7fff_ffff_ffff_ffff && h * n <= 0x7fff_ffff_ffff_ffff
        * 0x7fff_ffff_ffff_ffff && m * d <= 0x7fff_ffff_ffff_ffff * 0x7fff_ffff_ffff_ffff && 2 * h
        * m == 2 * (h * m)) by (nonlinear_arith)
        requires
            h <= 0x7fff_ffff_ffff_ffff,
            d <= 0x7fff_ffff_ffff_ffff,
            m <= 0x7fff_ffff_ffff_ffff,
            n <= 0x7fff_ffff_ffff_ffff,
    ;
    let den: u128 = h * n + m * d;
    if den > 0 {
        Ratio { num: 2 * (h * m), den }
    } else {
        Ratio { num: 0, den: 1 }
    }
}

/// The metrics of the results against the expected files, of which `top_k` should be found.
///
/// The bound is what a slice can hold.
pub fn score_results(
    result_files: &[String],
    expected_files: &[String],
    top_k: usize,
) -> (m: ScoreMetrics)
    requires
        expected_files@.len() <= isize::MAX,
    ensures
        m.describes(chars::texts(result_files@), chars::texts(expected_files@), top_k as nat),
        counts_found(
            m.hits_at_k as nat,
            chars::texts(result_files@),
            chars::texts(expected_files@),
            top_k as nat,
        ),
        is_fraction(
            m.precision_at_k,
            m.hits_at_k as nat,
            if top_k <= expected_files@.len() {
                top_k as nat
            } else {
                expected_files@.len()
            },
        ),
        is_fraction(m.recall, m.matched_files@.len(), expected_files@.len()),
        m.matched_files@.len() + m.unmatched_expected_files@.len() == expected_files@.len(),
{
    let ghost results = chars::texts(result_files@);
    let ghost expected = chars::texts(expected_files@);
    let hits_at_k: usize = hits_within(result_files, expected_files, top_k);
    let mut matched_files: Vec<String> = Vec::new();
    let mut unmatched_expected_files: Vec<String> = Vec::new();
    assert(expected.take(0) =~= Seq::empty());
    for i in 0..expected_files.len()
        invariant
            results == chars::texts(result_files@),
            expected == chars::texts(expected_files@),
            chars::texts(matched_files@) =~= split_found(expected.take(i as int), results, true),
            chars::texts(unmatched_expected_files@) =~= split_found(
                expected.take(i as int),
                results,
                false,
            ),
            matched_files@.len() <= i,
    {
        assert(expected.take(i + 1).drop_last() =~= expected.take(i as int));
        assert(results.take(results.len() as int) =~= results);
        let file: String = expected_files[i].clone();
        let ghost a = matched_files@;
        let ghost b = unmatched_expected_files@;
        if found_within(result_files, expected_files[i].as_str(), result_files.len()) {
            matched_files.push(file);
            assert(chars::texts(matched_files@) =~= chars::texts(a).push(file@));
        } else {
            unmatched_expected_files.push(file);
            assert(chars::texts(unmatched_expected_files@) =~= chars::texts(b).push(file@));
        }
    }
    assert(expected.take(expected.len() as int) =~= expected);
    let expected_len: usize = expected_files.len();
    let denominator: usize = if top_k <= expected_len {
        top_k
    } else {
        expected_len
    };
    let m = ScoreMetrics {
        precision_at_k: ratio_of(hits_at_k, denominator),
        recall: ratio_of(matched_files.len(), expected_len),
        recall_at_1: ratio_of(hits_within(result_files, expected_files, 1), expected_len),
        recall_at_3: ratio_of(hits_within(result_files, expected_files, 3), expected_len),
        recall_at_5: ratio_of(hits_within(result_files, expected_files, 5), expected_len),
        mrr: mean_reciprocal_rank(result_files, expected_files),
        f1: f1_of(hits_at_k, denominator, matched_files.len(), expected_len),
        hits_at_k,
        matched_files,
        unmatched_expected_files,
    };
    proof {
        law_precision_counts_what_could_be_found(m, results, expected, top_k as nat);
        law_recall_counts_what_was_found(m, results, expected, top_k as nat);
        law_every_expected_file_is_counted_once(expected, results);
        assert(chars::texts(m.matched_files@).len() == m.matched_files@.len());
        assert(chars::texts(m.unmatched_expected_files@).len()
            == m.unmatched_expected_files@.len());
    }
    m
}

// Laws.

/// A path matches itself.
pub proof fn law_match_reflexive(p: Seq<char>)
    ensures
        is_match(p, p),
{
}

/// A result matches an expected file just when the expected file matches the result.
pub proof fn law_match_symmetric(a: Seq<char>, b: Seq<char>)
    ensures
        is_match(a, b) == is_match(b, a),
{
}

/// Each expected file is matched or unmatched, and none is both.
pub proof fn law_every_expected_file_is_counted_once(
    expected: Seq<Seq<char>>,
    results: Seq<Seq<char>>,
)
    ensures
        split_found(expected, results, true).len() + split_found(expected, results, false).len()
            == expected.len(),
    decreases expected.len(),
{
    if expected.len() > 0 {
        law_every_expected_file_is_counted_once(expected.drop_last(), results);
    }
}

/// Looking at more results finds no fewer expected files.
pub proof fn law_hits_grow(
    results: Seq<Seq<char>>,
    expected: Seq<Seq<char>>,
    j: nat,
    k: nat,
)
    requires
        j <= k,
    ensures
        hits(results, expected, j) <= hits(results, expected, k),
        hits(results, expected, k) <= split_found(expected, results, true).len(),
        split_found(expected, results, true).len() <= expected.len(),
    decreases expected.len(),
{
    law_every_expected_file_is_counted_once(expected, results);
    if expected.len() > 0 {
        law_hits_grow(results, expected.drop_last(), j, k);
        let e = expected.last();
        let a = results.take(if j < results.len() { j as int } else { results.len() as int });
        let b = results.take(if k < results.len() { k as int } else { results.len() as int });
        if is_found(a, e) {
            let i = choose|i: int| 0 <= i < a.len() && is_match(#[trigger] a[i], e);
            assert(b[i] == a[i]);
            assert(is_found(b, e));
        }
        if is_found(b, e) {
            let i = choose|i: int| 0 <= i < b.len() && is_match(#[trigger] b[i], e);
            assert(results[i] == b[i]);
            assert(is_found(results, e));
        }
    }
}

/// The reciprocal rank is zero exactly where no result is relevant.
pub proof fn law_no_rank_without_relevant_result(
    results: Seq<Seq<char>>,
    expected: Seq<Seq<char>>,
    k: int,
)
    requires
        0 <= k <= results.len(),
    ensures
        reciprocal_rank(results, expected, k).num == 0 <==> forall|i: int|
            0 <= i < k ==> !is_relevant(#[trigger] results[i], expected),
    decreases k,
{
    if k > 0 {
        law_no_rank_without_relevant_result(results, expected, k - 1);
    }
}

/// Which of the expected files match one of the first `k` results.
pub open spec fn found_first(
    results: Seq<Seq<char>>,
    expected: Seq<Seq<char>>,
    k: nat,
) -> Seq<bool> {
    Seq::new(
        expected.len(),
        |e: int|
            exists|i: int|
                0 <= i < results.len() && i < k && is_match(#[trigger] results[i], expected[e]),
    )
}

/// Which of the expected files match none of the results.
pub open spec fn found_nowhere(results: Seq<Seq<char>>, expected: Seq<Seq<char>>) -> Seq<bool> {
    Seq::new(
        expected.len(),
        |e: int|
            forall|i: int|
                0 <= i < results.len() ==> !is_match(#[trigger] results[i], expected[e]),
    )
}

/// Whether `n` is how many of the expected files match one of the first `k` results.
pub open spec fn counts_found(
    n: nat,
    results: Seq<Seq<char>>,
    expected: Seq<Seq<char>>,
    k: nat,
) -> bool {
    exists|at: Seq<int>| #[trigger]
        lists::picks(at, found_first(results, expected, k)) && n == at.len()
}

/// Whether `r` is the fraction `num / den`, or zero where `den` is zero.
pub open spec fn is_fraction(r: Ratio, num: nat, den: nat) -> bool {
    &&& r.den > 0
    &&& den > 0 ==> r.num * den == num * r.den
    &&& den == 0 ==> r.num == 0
}

proof fn lemma_split_picks(
    expected: Seq<Seq<char>>,
    results: Seq<Seq<char>>,
    found: bool,
    keep: Seq<bool>,
) -> (at: Seq<int>)
    requires
        keep.len() == expected.len(),
        forall|e: int|
            0 <= e < expected.len() ==> #[trigger] keep[e] == (is_found(results, expected[e])
                == found),
    ensures
        lists::picks(at, keep),
        split_found(expected, results, found) == Seq::new(at.len(), |k: int| expected[at[k]]),
        at.len() <= expected.len(),
    decreases expected.len(),
{
    if expected.len() == 0 {
        assert(split_found(expected, results, found) =~= Seq::new(0, |k: int| expected[k]));
        Seq::empty()
    } else {
        let n = expected.len() - 1;
        let before = expected.drop_last();
        assert forall|e: int| 0 <= e < before.len() implies #[trigger] keep.drop_last()[e] == (
        is_found(results, before[e]) == found) by {
            assert(keep.drop_last()[e] == keep[e]);
        }
        let at = lemma_split_picks(before, results, found, keep.drop_last());
        lists::lemma_picks_step(at, keep);
        assert(keep.last() == keep[n]);
        assert forall|k: int| 0 <= k < at.len() implies #[trigger] before[at[k]]
            == expected[at[k]] by {
            assert(0 <= at[k] < keep.drop_last().len());
        }
        let next = if keep.last() {
            at.push(n)
        } else {
            at
        };
        assert(split_found(expected, results, found) =~= Seq::new(
            next.len(),
            |k: int| expected[next[k]],
        ));
        next
    }
}

proof fn lemma_hits_count(results: Seq<Seq<char>>, expected: Seq<Seq<char>>, k: nat)
    ensures
        counts_found(hits(results, expected, k), results, expected, k),
        hits(results, expected, k) <= expected.len(),
{
    let top = results.take(if k < results.len() { k as int } else { results.len() as int });
    let keep = found_first(results, expected, k);
    assert forall|e: int| 0 <= e < expected.len() implies #[trigger] keep[e] == (is_found(
        top,
        expected[e],
    ) == true) by {
        if is_found(top, expected[e]) {
            let i = choose|i: int| 0 <= i < top.len() && is_match(#[trigger] top[i], expected[e]);
            assert(results[i] == top[i]);
        }
        if keep[e] {
            let i = choose|i: int|
                0 <= i < results.len() && i < k && is_match(#[trigger] results[i], expected[e]);
            assert(top[i] == results[i]);
        }
    }
    let at = lemma_split_picks(expected, top, true, keep);
}

/// The precision at `k` is the part of the files that could stand among the first `k` results,
/// of which there are no more than `k` and no more than are expected, that do stand there. It is
/// one where as many are expected as can stand there and all of them do.
pub proof fn law_precision_counts_what_could_be_found(
    m: ScoreMetrics,
    results: Seq<Seq<char>>,
    expected: Seq<Seq<char>>,
    top_k: nat,
)
    requires
        m.describes(results, expected, top_k),
        expected.len() <= isize::MAX,
    ensures
        counts_found(m.hits_at_k as nat, results, expected, top_k),
        is_fraction(
            m.precision_at_k,
            m.hits_at_k as nat,
            if top_k <= expected.len() {
                top_k
            } else {
                expected.len()
            },
        ),
        0 < expected.len() <= top_k && (forall|e: int|
            0 <= e < expected.len() ==> #[trigger] found_first(results, expected, top_k)[e])
            ==> m.precision_at_k.num == m.precision_at_k.den,
{
    lemma_hits_count(results, expected, top_k);
    let keep = found_first(results, expected, top_k);
    if 0 < expected.len() <= top_k && (forall|e: int| 0 <= e < expected.len() ==> #[trigger]
        keep[e]) {
        let at = choose|at: Seq<int>| #[trigger]
            lists::picks(at, keep) && m.hits_at_k as nat == at.len();
        lists::lemma_picks_all(at, keep);
    }
}

/// The recall is the part of the expected files that are among the results, and the recall at
/// one, three and five the part that is among the first one, three and five. The recall is one
/// where all are found, and looking at more results gives no less.
pub proof fn law_recall_counts_what_was_found(
    m: ScoreMetrics,
    results: Seq<Seq<char>>,
    expected: Seq<Seq<char>>,
    top_k: nat,
)
    requires
        m.describes(results, expected, top_k),
        expected.len() <= isize::MAX,
    ensures
        counts_found(m.matched_files@.len(), results, expected, results.len()),
        is_fraction(m.recall, m.matched_files@.len(), expected.len()),
        exists|n: nat| #[trigger]
            counts_found(n, results, expected, 1) && is_fraction(m.recall_at_1, n, expected.len()),
        exists|n: nat| #[trigger]
            counts_found(n, results, expected, 3) && is_fraction(m.recall_at_3, n, expected.len()),
        exists|n: nat| #[trigger]
            counts_found(n, results, expected, 5) && is_fraction(m.recall_at_5, n, expected.len()),
        m.recall_at_1.num * m.recall_at_3.den <= m.recall_at_3.num * m.recall_at_1.den,
        m.recall_at_3.num * m.recall_at_5.den <= m.recall_at_5.num * m.recall_at_3.den,
        m.recall_at_5.num * m.recall.den <= m.recall.num * m.recall_at_5.den,
        expected.len() > 0 && m.unmatched_expected_files@.len() == 0 ==> m.recall.num
            == m.recall.den,
{
    let n = expected.len();
    lemma_hits_count(results, expected, results.len());
    assert(results.take(results.len() as int) =~= results);
    assert(chars::texts(m.matched_files@).len() == m.matched_files@.len());
    assert(chars::texts(m.unmatched_expected_files@).len() == m.unmatched_expected_files@.len());
    let (h1, h3, h5) = (
        hits(results, expected, 1),
        hits(results, expected, 3),
        hits(results, expected, 5),
    );
    lemma_hits_count(results, expected, 1);
    lemma_hits_count(results, expected, 3);
    lemma_hits_count(results, expected, 5);
    assert(counts_found(h1, results, expected, 1) && is_fraction(m.recall_at_1, h1, n));
    assert(counts_found(h3, results, expected, 3) && is_fraction(m.recall_at_3, h3, n));
    assert(counts_found(h5, results, expected, 5) && is_fraction(m.recall_at_5, h5, n));
    law_hits_grow(results, expected, 1, 3);
    law_hits_grow(results, expected, 3, 5);
    law_every_expected_file_is_counted_once(expected, results);
    let c = m.matched_files@.len();
    assert(h1 * n <= h3 * n && h3 * n <= h5 * n && h5 * n <= c * n) by (nonlinear_arith)
        requires
            h1 <= h3 <= h5 <= c,
    ;
}

/// The matched files are the expected files that a result matches, the unmatched ones the others,
/// each once and in the order in which they are expected.
pub proof fn law_expected_files_are_told_apart(
    m: ScoreMetrics,
    results: Seq<Seq<char>>,
    expected: Seq<Seq<char>>,
    top_k: nat,
)
    requires
        m.describes(results, expected, top_k),
    ensures
        exists|at: Seq<int>| #[trigger]
            lists::picks(at, found_first(results, expected, results.len())) && chars::texts(
                m.matched_files@,
            ) == Seq::new(at.len(), |k: int| expected[at[k]]),
        exists|at: Seq<int>| #[trigger]
            lists::picks(at, found_nowhere(results, expected)) && chars::texts(m.unmatched_expected_files@) == Seq::new(
                at.len(),
                |k: int| expected[at[k]],
            ),
{
    let keep = found_first(results, expected, results.len());
    let other = found_nowhere(results, expected);
    assert forall|e: int| 0 <= e < expected.len() implies #[trigger] keep[e] == is_found(
        results,
        expected[e],
    ) by {
        if is_found(results, expected[e]) {
            let i = choose|i: int|
                0 <= i < results.len() && is_match(#[trigger] results[i], expected[e]);
            assert(i < results.len());
        }
    }
    assert forall|e: int| 0 <= e < expected.len() implies #[trigger] other[e] == (is_found(
        results,
        expected[e],
    ) == false) by {
        if is_found(results, expected[e]) {
            let i = choose|i: int|
                0 <= i < results.len() && is_match(#[trigger] results[i], expected[e]);
            assert(is_match(results[i], expected[e]));
        }
    }
    let a = lemma_split_picks(expected, results, true, keep);
    let b = lemma_split_picks(expected, results, false, other);
    assert(lists::picks(a, keep));
    assert(lists::picks(b, other));
}

/// The reciprocal rank is one over the rank, counted from one, of the first result that is an
/// expected file, and zero where none is.
pub proof fn law_rank_of_the_first_relevant_result(
    m: ScoreMetrics,
    results: Seq<Seq<char>>,
    expected: Seq<Seq<char>>,
    top_k: nat,
    i: int,
)
    requires
        m.describes(results, expected, top_k),
        results.len() <= usize::MAX,
        0 <= i <= results.len(),
        forall|j: int, e: int|
            0 <= j < i && 0 <= e < expected.len() ==> !is_match(
                #[trigger] results[j],
                #[trigger] expected[e],
            ),
        i < results.len() ==> exists|e: int|
            0 <= e < expected.len() && is_match(results[i], #[trigger] expected[e]),
    ensures
        i < results.len() ==> m.mrr.num == 1 && m.mrr.den == i + 1,
        i == results.len() ==> m.mrr.num == 0,
        m.mrr.den > 0,
{
    assert forall|j: int| 0 <= j < i implies !is_relevant(#[trigger] results[j], expected) by {
        if is_relevant(results[j], expected) {
            let e = choose|e: int|
                0 <= e < expected.len() && is_match(results[j], #[trigger] expected[e]);
            assert(!is_match(results[j], expected[e]));
        }
    }
    law_no_rank_without_relevant_result(results, expected, i);
    lemma_rank_kept(results, expected, i, results.len() as int);
}

proof fn lemma_rank_kept(results: Seq<Seq<char>>, expected: Seq<Seq<char>>, i: int, k: int)
    requires
        0 <= i <= k <= results.len() <= usize::MAX,
        reciprocal_rank(results, expected, i).num == 0,
        i < results.len() ==> is_relevant(results[i], expected),
    ensures
        i < k ==> reciprocal_rank(results, expected, k) == (Ratio { num: 1, den: (i + 1) as u128 }),
        i == k ==> reciprocal_rank(results, expected, k).den > 0,
    decreases k,
{
    if i + 1 < k {
        lemma_rank_kept(results, expected, i, k - 1);
    } else if i == k && k > 0 {
        lemma_rank_denominator(results, expected, k);
    }
}

proof fn lemma_rank_denominator(results: Seq<Seq<char>>, expected: Seq<Seq<char>>, k: int)
    requires
        0 <= k <= usize::MAX,
    ensures
        reciprocal_rank(results, expected, k).den > 0,
    decreases k,
{
    if k > 0 {
        lemma_rank_denominator(results, expected, k - 1);
    }
}

/// The F1 is the harmonic mean of precision and recall: twice their product over their sum, and
/// zero where both are.
pub proof fn law_f1_is_the_harmonic_mean(
    m: ScoreMetrics,
    results: Seq<Seq<char>>,
    expected: Seq<Seq<char>>,
    top_k: nat,
)
    requires
        m.describes(results, expected, top_k),
        expected.len() <= isize::MAX,
    ensures
        ({
            let (p, r) = (m.precision_at_k, m.recall);
            &&& m.f1.den > 0
            &&& m.f1.num * (p.num * r.den + r.num * p.den) == 2 * (p.num * r.num) * m.f1.den
            &&& p.num == 0 && r.num == 0 ==> m.f1.num == 0
        }),
{
    let n = expected.len();
    let d = lesser(top_k, n);
    let h = hits(results, expected, top_k);
    let c = split_found(expected, results, true).len();
    lemma_hits_count(results, expected, top_k);
    law_hits_grow(results, expected, top_k, top_k);
    if top_k == 0 {
        let at = choose|at: Seq<int>| #[trigger]
            lists::picks(at, found_first(results, expected, 0)) && h == at.len();
        if at.len() > 0 {
            assert(found_first(results, expected, 0)[at[0]]);
        }
    }
    lemma_harmonic(h, d, c, n);
}

proof fn lemma_harmonic(h: nat, d: nat, c: nat, n: nat)
    requires
        h <= n,
        c <= n,
        d <= n,
        n <= isize::MAX,
        d == 0 ==> h == 0,
    ensures
        ({
            let (p, r, f) = (ratio(h, d), ratio(c, n), harmonic_mean(h, d, c, n));
            &&& f.den > 0
            &&& f.num * (p.num * r.den + r.num * p.den) == 2 * (p.num * r.num) * f.den
            &&& p.num == 0 && r.num == 0 ==> f.num == 0
        }),
{
    let (p, r, f) = (ratio(h, d), ratio(c, n), harmonic_mean(h, d, c, n));
    let big = 0x7fff_ffff_ffff_ffffnat;
    assert(h * c <= big * big && h * n <= big * big && c * d <= big * big && 2 * h * c == 2 * (h
        * c)) by (nonlinear_arith)
        requires
            h <= big,
            d <= big,
            c <= big,
            n <= big,
    ;
    let den = h * n + c * d;
    if h == 0 {
        assert(h * c == 0) by (nonlinear_arith)
            requires
                h == 0,
        ;
        assert(p.num == 0);
        assert(f.num == 0);
        assert(f.num * (p.num * r.den + r.num * p.den) == 2 * (p.num * r.num) * f.den)
            by (nonlinear_arith)
            requires
                f.num == 0,
                p.num == 0,
        ;
    } else {
        assert(h * n > 0) by (nonlinear_arith)
            requires
                h > 0,
                n > 0,
        ;
        assert(p.num == h && p.den == d && r.num == c && r.den == n);
        assert(f.num == 2 * (h * c) && f.den == den);
    }
}

/// What stands in a `qmd://` path behind the collection is the path.
pub proof fn law_scheme_and_collection_are_left_out(collection: Seq<char>, path: Seq<char>)
    requires
        !collection.contains('/'),
    ensures
        without_scheme("qmd://"@ + collection + "/"@ + path) == path,
{
    reveal_strlit("qmd://");
    reveal_strlit("/");
    let p = "qmd://"@ + collection + "/"@ + path;
    let rest = collection + seq!['/'] + path;
    assert(p.subrange(0, 6) =~= "qmd://"@);
    assert(p.skip(6) =~= rest);
    search::law_after_first_is_what_follows(collection, '/', path);
}

/// Two paths match exactly where one, in normal form, ends with the other; so a file matches
/// every longer path to it.
pub proof fn law_match_is_by_the_end(a: Seq<char>, b: Seq<char>)
    ensures
        is_match(a, b) <==> normal_path(a).len() >= normal_path(b).len() && normal_path(a).skip(
            normal_path(a).len() - normal_path(b).len(),
        ) == normal_path(b) || normal_path(b).len() >= normal_path(a).len() && normal_path(b).skip(
            normal_path(b).len() - normal_path(a).len(),
        ) == normal_path(a),
{
    let (x, y) = (normal_path(a), normal_path(b));
    if x.len() >= y.len() {
        assert(x.subrange(x.len() - y.len(), x.len() as int) =~= x.skip(x.len() - y.len()));
    }
    if y.len() >= x.len() {
        assert(y.subrange(y.len() - x.len(), y.len() as int) =~= y.skip(y.len() - x.len()));
    }
    if x == y {
        assert(x.skip(0) =~= y);
    }
}

} // verus!
