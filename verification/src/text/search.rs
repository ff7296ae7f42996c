//! Searching, splitting and replacing.
use vstd::prelude::*;

use crate::text::chars;
use crate::text::chars::{chars_of, string_between, white_space};

verus! {

/// Whether `p` stands in `s` at position `i`.
pub open spec fn occurs_at(s: Seq<char>, p: Seq<char>, i: int) -> bool {
    0 <= i && i + p.len() <= s.len() && s.subrange(i, i + p.len()) == p
}

/// Whether `s` begins with `p`.
pub open spec fn begins_with(s: Seq<char>, p: Seq<char>) -> bool {
    occurs_at(s, p, 0)
}

/// Whether `s` ends with `p`.
pub open spec fn ends_in(s: Seq<char>, p: Seq<char>) -> bool {
    occurs_at(s, p, s.len() - p.len())
}

/// Whether `p` stands anywhere in `s`.
pub open spec fn holds_text(s: Seq<char>, p: Seq<char>) -> bool {
    exists|i: int| occurs_at(s, p, i)
}

/// Whether `p` stands in `s` at position `i`.
pub fn matches_at(s: &[char], p: &[char], i: usize) -> (r: bool)
    ensures
        r == occurs_at(s@, p@, i as int),
{
    let n: usize = s.len();
    if i > n || n - i < p.len() {
        return false;
    }
    for k in 0..p.len()
        invariant
            n == s@.len(),
            i + p@.len() <= n,
            forall|j: int| 0 <= j < k ==> s@[i + j] == p@[j],
    {
        if s[i + k] != p[k] {
            assert(s@.subrange(i as int, i + p@.len())[k as int] != p@[k as int]);
            return false;
        }
    }
    assert(s@.subrange(i as int, i + p@.len()) =~= p@);
    true
}

/// Whether `s` begins with `p`.
pub fn starts_with(s: &str, p: &str) -> (r: bool)
    ensures
        r == begins_with(s@, p@),
{
    let a: Vec<char> = chars_of(s);
    let b: Vec<char> = chars_of(p);
    matches_at(a.as_slice(), b.as_slice(), 0)
}

/// Whether `s` ends with `p`.
pub fn ends_with(s: &str, p: &str) -> (r: bool)
    ensures
        r == ends_in(s@, p@),
{
    let a: Vec<char> = chars_of(s);
    let b: Vec<char> = chars_of(p);
    if a.len() < b.len() {
        return false;
    }
    matches_at(a.as_slice(), b.as_slice(), a.len() - b.len())
}

/// The first position at or after `from` at which `p` stands in `s`.
pub fn find_from(s: &[char], p: &[char], from: usize) -> (r: Option<usize>)
    requires
        from <= s@.len(),
    ensures
        match r {
            Some(i) => from <= i && occurs_at(s@, p@, i as int) && forall|j: int|
                from <= j < i ==> !occurs_at(s@, p@, j),
            None => forall|j: int| from <= j ==> !occurs_at(s@, p@, j),
        },
{
    if s.len() < p.len() {
        return None;
    }
    let last: usize = s.len() - p.len();
    let mut i: usize = from;
    while i <= last
        invariant
            from <= i <= s@.len() + 1,
            last == s@.len() - p@.len(),
            forall|j: int| from <= j < i ==> !occurs_at(s@, p@, j),
        decreases s@.len() + 1 - i,
    {
        if matches_at(s, p, i) {
            return Some(i);
        }
        if i == last {
            return None;
        }
        i = i + 1;
    }
    None
}

/// Whether `p` stands anywhere in `s`.
pub fn contains(s: &str, p: &str) -> (r: bool)
    ensures
        r == holds_text(s@, p@),
{
    let a: Vec<char> = chars_of(s);
    let b: Vec<char> = chars_of(p);
    match find_from(a.as_slice(), b.as_slice(), 0) {
        Some(i) => {
            assert(occurs_at(s@, p@, i as int));
            true
        },
        None => false,
    }
}

/// What follows the first `c` in `s`.
pub open spec fn after_first(s: Seq<char>, c: char) -> Option<Seq<char>>
    decreases s.len(),
{
    if s.len() == 0 {
        None
    } else if s[0] == c {
        Some(s.skip(1))
    } else {
        after_first(s.skip(1), c)
    }
}

/// Where what follows the first `c` of `s` from `from` on begins.
pub fn find_after(s: &[char], c: char, from: usize) -> (r: Option<usize>)
    requires
        from <= s@.len(),
    ensures
        match r {
            Some(i) => from < i <= s@.len() && after_first(s@.skip(from as int), c) == Some(
                s@.skip(i as int),
            ),
            None => after_first(s@.skip(from as int), c) is None,
        },
{
    for i in from..s.len()
        invariant
            from <= s@.len(),
            after_first(s@.skip(from as int), c) == after_first(s@.skip(i as int), c),
    {
        assert(s@.skip(i as int).skip(1) =~= s@.skip(i + 1));
        if s[i] == c {
            return Some(i + 1);
        }
    }
    None
}

/// What follows the last `c` in `s`, or all of `s` where there is none.
pub open spec fn after_last(s: Seq<char>, c: char) -> Seq<char>
    decreases s.len(),
{
    if s.len() == 0 || s.last() == c {
        Seq::empty()
    } else {
        after_last(s.drop_last(), c).push(s.last())
    }
}

/// What follows the last `c` in `s`, or all of `s` where there is none.
pub fn tail_after(s: &str, c: char) -> (r: String)
    ensures
        r@ == after_last(s@, c),
{
    let v: Vec<char> = chars_of(s);
    let mut from: usize = 0;
    assert(v@.take(0) =~= Seq::empty());
    for i in 0..v.len()
        invariant
            from <= i <= v@.len(),
            after_last(v@.take(i as int), c) =~= v@.subrange(from as int, i as int),
    {
        assert(v@.take(i + 1).drop_last() =~= v@.take(i as int));
        if v[i] == c {
            from = i + 1;
        } else {
            assert(v@.subrange(from as int, i + 1) =~= v@.subrange(from as int, i as int).push(
                v@[i as int],
            ));
        }
    }
    assert(v@.take(v@.len() as int) =~= v@);
    string_between(v.as_slice(), from, v.len())
}

/// `s` with `with` in the place of each `c`.
pub open spec fn replaced_char(s: Seq<char>, c: char, with: Seq<char>) -> Seq<char>
    decreases s.len(),
{
    if s.len() == 0 {
        Seq::empty()
    } else if s.last() == c {
        replaced_char(s.drop_last(), c, with) + with
    } else {
        replaced_char(s.drop_last(), c, with).push(s.last())
    }
}

/// `s` with `with` in the place of each `c`.
pub fn replace_char(s: &str, c: char, with: &str) -> (r: String)
    ensures
        r@ == replaced_char(s@, c, with@),
{
    let v: Vec<char> = chars_of(s);
    let mut r: String = String::new();
    assert(v@.take(0) =~= Seq::empty());
    for i in 0..v.len()
        invariant
            r@ =~= replaced_char(v@.take(i as int), c, with@),
    {
        assert(v@.take(i + 1).drop_last() =~= v@.take(i as int));
        if v[i] == c {
            r.append(with);
        } else {
            r.push(v[i]);
        }
    }
    assert(v@.take(v@.len() as int) =~= v@);
    r
}

/// `s` with `with` in the place of each `p`, from left to right.
pub open spec fn replaced(s: Seq<char>, p: Seq<char>, with: Seq<char>) -> Seq<char>
    decreases s.len(),
{
    if p.len() == 0 || s.len() < p.len() {
        s
    } else if begins_with(s, p) {
        with + replaced(s.skip(p.len() as int), p, with)
    } else {
        seq![s[0]] + replaced(s.skip(1), p, with)
    }
}

/// `s` with `with` in the place of each `p`, from left to right.
pub fn replace(s: &str, p: &str, with: &str) -> (r: String)
    requires
        p@.len() > 0,
    ensures
        r@ == replaced(s@, p@, with@),
{
    let v: Vec<char> = chars_of(s);
    let q: Vec<char> = chars_of(p);
    let mut r: String = String::new();
    let mut i: usize = 0;
    assert(v@.skip(0) =~= v@);
    assert(r@ + replaced(v@, p@, with@) =~= replaced(v@, p@, with@));
    while i < v.len()
        invariant
            q@ == p@,
            p@.len() > 0,
            i <= v@.len(),
            r@ + replaced(v@.skip(i as int), p@, with@) == replaced(v@, p@, with@),
        decreases v@.len() - i,
    {
        let ghost rest = v@.skip(i as int);
        let ghost r0 = r@;
        if matches_at(v.as_slice(), q.as_slice(), i) {
            assert(rest.subrange(0, p@.len() as int) =~= v@.subrange(i as int, i + p@.len()));
            assert(rest.skip(p@.len() as int) =~= v@.skip(i + p@.len()));
            r.append(with);
            i = i + q.len();
            assert(r@ + replaced(v@.skip(i as int), p@, with@) =~= r0 + replaced(rest, p@, with@));
        } else {
            proof {
                if rest.len() >= p@.len() && begins_with(rest, p@) {
                    assert(rest.subrange(0, p@.len() as int) =~= v@.subrange(
                        i as int,
                        i + p@.len(),
                    ));
                }
            }
            assert(rest.skip(1) =~= v@.skip(i + 1));
            r.push(v[i]);
            i = i + 1;
            assert(rest.len() < p@.len() ==> replaced(v@.skip(i as int), p@, with@) == v@.skip(
                i as int,
            ));
            assert(r@ + replaced(v@.skip(i as int), p@, with@) =~= r0 + replaced(rest, p@, with@));
        }
    }
    assert(v@.skip(i as int) =~= Seq::empty());
    assert(r@ + replaced(v@.skip(i as int), p@, with@) =~= r@);
    r
}

/// The words of `s`: its longest runs of characters that are not white space.
pub open spec fn words(s: Seq<char>) -> Seq<Seq<char>>
    decreases s.len(),
{
    if s.len() == 0 {
        Seq::empty()
    } else {
        let before = words(s.drop_last());
        if chars::is_white_space(s.last()) {
            before
        } else if s.len() >= 2 && !chars::is_white_space(s[s.len() - 2]) {
            before.drop_last().push(before.last().push(s.last()))
        } else {
            before.push(seq![s.last()])
        }
    }
}

/// The words of `s`.
pub fn split_words(s: &str) -> (r: Vec<String>)
    ensures
        chars::texts(r@) == words(s@),
{
    let v: Vec<char> = chars_of(s);
    let mut r: Vec<String> = Vec::new();
    let mut inside: bool = false;
    let mut from: usize = 0;
    assert(v@.take(0) =~= Seq::empty());
    for i in 0..v.len()
        invariant
            from <= i <= v@.len(),
            inside == (i > 0 && !chars::is_white_space(v@[i - 1])),
            inside ==> from < i,
            inside ==> words(v@.take(i as int)) =~= chars::texts(r@).push(
                v@.subrange(from as int, i as int),
            ),
            !inside ==> words(v@.take(i as int)) =~= chars::texts(r@),
    {
        let ghost t = v@.take(i + 1);
        assert(t.drop_last() =~= v@.take(i as int));
        let ghost r0 = r@;
        if white_space(v[i]) {
            if inside {
                r.push(string_between(v.as_slice(), from, i));
                assert(chars::texts(r@) =~= chars::texts(r0).push(
                    v@.subrange(from as int, i as int),
                ));
            }
            inside = false;
        } else {
            if inside {
                let ghost before = words(v@.take(i as int));
                assert(before.drop_last() =~= chars::texts(r@));
                assert(v@.subrange(from as int, i + 1) =~= v@.subrange(from as int, i as int).push(
                    v@[i as int],
                ));
            } else {
                from = i;
                assert(v@.subrange(i as int, i + 1) =~= seq![v@[i as int]]);
            }
            inside = true;
        }
    }
    assert(v@.take(v@.len() as int) =~= v@);
    if inside {
        let ghost r0 = r@;
        r.push(string_between(v.as_slice(), from, v.len()));
        assert(chars::texts(r@) =~= chars::texts(r0).push(
            v@.subrange(from as int, v@.len() as int),
        ));
    }
    r
}

/// Whether `c` stands in `s`.
pub fn contains_char(s: &str, c: char) -> (r: bool)
    ensures
        r == s@.contains(c),
{
    let v: Vec<char> = chars_of(s);
    for i in 0..v.len()
        invariant
            v@ == s@,
            forall|k: int| 0 <= k < i ==> v@[k] != c,
    {
        if v[i] == c {
            return true;
        }
    }
    false
}

/// The pieces of `s` between the characters `c`; one more than `s` has of them.
pub open spec fn split_on(s: Seq<char>, c: char) -> Seq<Seq<char>>
    decreases s.len(),
{
    if s.len() == 0 {
        seq![Seq::<char>::empty()]
    } else {
        let before = split_on(s.drop_last(), c);
        if s.last() == c {
            before.push(Seq::empty())
        } else {
            before.drop_last().push(before.last().push(s.last()))
        }
    }
}

/// There is always at least one piece.
pub proof fn lemma_split_nonempty(s: Seq<char>, c: char)
    ensures
        split_on(s, c).len() >= 1,
    decreases s.len(),
{
    if s.len() > 0 {
        lemma_split_nonempty(s.drop_last(), c);
    }
}

/// The pieces with the separator between them are the text again.
pub proof fn lemma_join_undoes_split(s: Seq<char>, c: char, sep: Seq<char>)
    requires
        sep == seq![c],
    ensures
        chars::joined(split_on(s, c), sep) == s,
    decreases s.len(),
{
    let pieces = split_on(s, c);
    if s.len() == 0 {
    } else {
        let before = split_on(s.drop_last(), c);
        lemma_join_undoes_split(s.drop_last(), c, sep);
        lemma_split_nonempty(s.drop_last(), c);
        assert(s =~= s.drop_last().push(s.last()));
        if s.last() == c {
            assert(pieces.drop_last() =~= before);
            assert(chars::joined(pieces, sep) =~= s);
        } else {
            assert(pieces.drop_last() =~= before.drop_last());
            assert(before.len() == 1 ==> before[0] == before.last());
            assert(chars::joined(pieces, sep) =~= chars::joined(before, sep).push(s.last()));
        }
    }
}

/// The pieces of `s` between the characters `c`.
pub fn split_char(s: &str, c: char) -> (r: Vec<String>)
    ensures
        chars::texts(r@) == split_on(s@, c),
{
    let v: Vec<char> = chars_of(s);
    let mut r: Vec<String> = Vec::new();
    let mut from: usize = 0;
    assert(v@.take(0) =~= Seq::empty());
    assert(v@.subrange(0, 0) =~= Seq::empty());
    for i in 0..v.len()
        invariant
            v@ == s@,
            from <= i <= v@.len(),
            split_on(v@.take(i as int), c) =~= chars::texts(r@).push(
                v@.subrange(from as int, i as int),
            ),
    {
        let ghost t = v@.take(i + 1);
        let ghost before = split_on(v@.take(i as int), c);
        assert(t.drop_last() =~= v@.take(i as int));
        let ghost r0 = r@;
        if v[i] == c {
            r.push(string_between(v.as_slice(), from, i));
            from = i + 1;
            assert(chars::texts(r@) =~= before);
            assert(v@.subrange(from as int, i + 1) =~= Seq::empty());
        } else {
            assert(v@.subrange(from as int, i + 1) =~= v@.subrange(from as int, i as int).push(
                v@[i as int],
            ));
            assert(before.drop_last() =~= chars::texts(r@));
        }
    }
    assert(v@.take(v@.len() as int) =~= v@);
    let ghost r0 = r@;
    r.push(string_between(v.as_slice(), from, v.len()));
    assert(chars::texts(r@) =~= chars::texts(r0).push(
        v@.subrange(from as int, v@.len() as int),
    ));
    r
}

// Laws.

/// No piece holds the separator.
pub proof fn law_pieces_hold_no_separator(s: Seq<char>, c: char)
    ensures
        forall|i: int|
            0 <= i < split_on(s, c).len() ==> !(#[trigger] split_on(s, c)[i]).contains(c),
    decreases s.len(),
{
    if s.len() > 0 {
        let before = split_on(s.drop_last(), c);
        law_pieces_hold_no_separator(s.drop_last(), c);
        lemma_split_nonempty(s.drop_last(), c);
        let now = split_on(s, c);
        assert forall|i: int| 0 <= i < now.len() implies !(#[trigger] now[i]).contains(c) by {
            if i < before.len() - 1 {
                assert(now[i] == before[i]);
            } else if s.last() == c {
                if i < before.len() {
                    assert(now[i] == before[i]);
                }
            } else {
                assert(now[i] == before.last().push(s.last()));
                assert(!before[before.len() - 1].contains(c));
                if now[i].contains(c) {
                    let k = choose|k: int| 0 <= k < now[i].len() && now[i][k] == c;
                    assert(before.last()[k] == c);
                }
            }
        }
    }
}

proof fn lemma_split_add(a: Seq<char>, c: char, b: Seq<char>)
    requires
        !b.contains(c),
    ensures
        split_on(a.push(c) + b, c) == split_on(a, c).push(b),
    decreases b.len(),
{
    let s = a.push(c) + b;
    if b.len() == 0 {
        assert(s =~= a.push(c));
        assert(s.drop_last() =~= a);
        assert(b =~= Seq::empty());
    } else {
        assert(!b.drop_last().contains(c)) by {
            if b.drop_last().contains(c) {
                let k = choose|k: int| 0 <= k < b.drop_last().len() && b.drop_last()[k] == c;
                assert(b[k] == c);
            }
        }
        assert(b.contains(b.last()));
        assert(s.drop_last() =~= a.push(c) + b.drop_last());
        lemma_split_add(a, c, b.drop_last());
        assert(b.drop_last().push(b.last()) =~= b);
        assert(split_on(s, c) =~= split_on(a, c).push(b));
    }
}

proof fn lemma_split_whole(s: Seq<char>, c: char)
    requires
        !s.contains(c),
    ensures
        split_on(s, c) == seq![s],
    decreases s.len(),
{
    if s.len() > 0 {
        assert(s.contains(s.last()));
        assert(!s.drop_last().contains(c)) by {
            if s.drop_last().contains(c) {
                let k = choose|k: int| 0 <= k < s.drop_last().len() && s.drop_last()[k] == c;
                assert(s[k] == c);
            }
        }
        lemma_split_whole(s.drop_last(), c);
        assert(s.drop_last().push(s.last()) =~= s);
        assert(split_on(s, c) =~= seq![s]);
    } else {
        assert(s =~= Seq::empty());
    }
}

/// Pieces that are put together with the separator between them come apart again.
pub proof fn law_split_undoes_join(parts: Seq<Seq<char>>, c: char, sep: Seq<char>)
    requires
        sep == seq![c],
        parts.len() > 0,
        forall|i: int| 0 <= i < parts.len() ==> !(#[trigger] parts[i]).contains(c),
    ensures
        split_on(chars::joined(parts, sep), c) == parts,
    decreases parts.len(),
{
    if parts.len() == 1 {
        assert(!parts[0].contains(c));
        lemma_split_whole(parts[0], c);
        assert(parts =~= seq![parts[0]]);
    } else {
        let before = parts.drop_last();
        assert forall|i: int| 0 <= i < before.len() implies !(#[trigger] before[i]).contains(c) by {
            assert(before[i] == parts[i]);
        }
        law_split_undoes_join(before, c, sep);
        assert(!parts[parts.len() - 1].contains(c));
        lemma_split_add(chars::joined(before, sep), c, parts.last());
        assert(chars::joined(before, sep) + sep + parts.last() =~= chars::joined(before, sep).push(
            c,
        ) + parts.last());
        assert(before.push(parts.last()) =~= parts);
    }
}

/// A text stands between what is before it and what is behind it.
pub proof fn lemma_holds_between(before: Seq<char>, text: Seq<char>, after: Seq<char>)
    ensures
        holds_text(before + text + after, text),
{
    let s = before + text + after;
    assert(s.subrange(before.len() as int, (before.len() + text.len()) as int) =~= text);
    assert(occurs_at(s, text, before.len() as int));
}

/// What stands in a part stands in the whole.
pub proof fn lemma_holds_through(s: Seq<char>, part: Seq<char>, text: Seq<char>)
    requires
        holds_text(s, part),
        holds_text(part, text),
    ensures
        holds_text(s, text),
{
    let i = choose|i: int| occurs_at(s, part, i);
    let j = choose|j: int| occurs_at(part, text, j);
    assert(s.subrange(i + j, i + j + text.len()) =~= part.subrange(j, j + text.len())) by {
        assert(s.subrange(i, i + part.len()) == part);
    }
    assert(occurs_at(s, text, i + j));
}

/// Each part stands in the parts put together.
pub proof fn lemma_concatenated_holds(parts: Seq<Seq<char>>, i: int)
    requires
        0 <= i < parts.len(),
    ensures
        holds_text(chars::concatenated(parts), parts[i]),
    decreases parts.len(),
{
    let before = parts.drop_last();
    let whole = chars::concatenated(parts);
    if i == parts.len() - 1 {
        assert(whole =~= chars::concatenated(before) + parts[i] + Seq::<char>::empty());
        lemma_holds_between(chars::concatenated(before), parts[i], Seq::empty());
    } else {
        lemma_concatenated_holds(before, i);
        assert(whole =~= Seq::<char>::empty() + chars::concatenated(before) + parts.last());
        lemma_holds_between(Seq::empty(), chars::concatenated(before), parts.last());
        lemma_holds_through(whole, chars::concatenated(before), parts[i]);
    }
}

/// Whether a stretch of a text is a word of it: it has no white space, and there is none longer
/// around it.
pub open spec fn is_run(s: Seq<char>, i: int, j: int) -> bool {
    &&& 0 <= i < j <= s.len()
    &&& forall|k: int| i <= k < j ==> !chars::is_white_space(#[trigger] s[k])
    &&& i == 0 || chars::is_white_space(s[i - 1])
    &&& j == s.len() || chars::is_white_space(s[j])
}

/// Whether `at` are the longest runs of a text without white space, all of them and in order.
pub open spec fn all_runs(s: Seq<char>, at: Seq<(int, int)>) -> bool {
    &&& forall|k: int| 0 <= k < at.len() ==> is_run(s, (#[trigger] at[k]).0, at[k].1)
    &&& forall|j: int, k: int|
        0 <= j < k < at.len() ==> (#[trigger] at[j]).1 < (#[trigger] at[k]).0
    &&& forall|i: int, j: int| #[trigger] is_run(s, i, j) ==> at.contains((i, j))
}

#[verifier::spinoff_prover]
#[verifier::rlimit(60)]
proof fn lemma_word_runs(s: Seq<char>) -> (at: Seq<(int, int)>)
    ensures
        all_runs(s, at),
        words(s) == Seq::new(at.len(), |k: int| s.subrange(at[k].0, at[k].1)),
        s.len() > 0 && !chars::is_white_space(s.last()) ==> at.len() > 0 && at.last().1 == s.len(),
    decreases s.len(),
{
    if s.len() == 0 {
        let at = Seq::<(int, int)>::empty();
        assert(words(s) =~= Seq::new(at.len(), |k: int| s.subrange(at[k].0, at[k].1)));
        return at;
    }
    let b = s.drop_last();
    let n = b.len() as int;
    let old_at = lemma_word_runs(b);
    let joins = n >= 1 && !chars::is_white_space(s[n - 1]);
    let at = if chars::is_white_space(s.last()) {
        old_at
    } else if joins {
        old_at.drop_last().push((old_at.last().0, n + 1))
    } else {
        old_at.push((n, n + 1))
    };
    if joins {
        assert(b.last() == s[n - 1]);
    }
    assert(forall|m: int| 0 <= m < n ==> s[m] == b[m]);
    assert forall|k: int| 0 <= k < at.len() implies is_run(s, (#[trigger] at[k]).0, at[k].1) by {
        if k < old_at.len() {
            assert(is_run(b, old_at[k].0, old_at[k].1));
            if !chars::is_white_space(s.last()) && k < old_at.len() - 1 {
                assert(old_at[k].1 < old_at[old_at.len() - 1].0);
            }
            if !chars::is_white_space(s.last()) && !joins && old_at[k].1 == n {
                assert(!chars::is_white_space(b[n - 1]));
            }
        }
        assert forall|m: int| at[k].0 <= m < at[k].1 implies !chars::is_white_space(
            #[trigger] s[m],
        ) by {
            if m < n {
                assert(s[m] == b[m]);
            }
        }
    }
    assert forall|j: int, k: int| 0 <= j < k < at.len() implies (#[trigger] at[j]).1 < (
    #[trigger] at[k]).0 by {
        assert(is_run(b, old_at[j].0, old_at[j].1));
        if k < old_at.len() {
            assert(old_at[j].1 < old_at[k].0);
        } else if old_at[j].1 == n {
            assert(!chars::is_white_space(b[n - 1]));
        }
    }
    assert forall|i: int, j: int| #[trigger] is_run(s, i, j) implies at.contains((i, j)) by {
        if j <= n {
            assert forall|m: int| i <= m < j implies !chars::is_white_space(#[trigger] b[m]) by {
                assert(s[m] == b[m]);
            }
            assert(is_run(b, i, j));
            let k = choose|k: int| 0 <= k < old_at.len() && old_at[k] == (i, j);
            if !chars::is_white_space(s.last()) && joins && k == old_at.len() - 1 {
                assert(j == n);
                assert(chars::is_white_space(s[n]));
            }
            assert(at[k] == (i, j));
        } else {
            assert(!chars::is_white_space(s[n]));
            if joins {
                let i0 = old_at.last().0;
                assert(is_run(b, i0, old_at[old_at.len() - 1].1));
                assert(i == i0) by {
                    if i < i0 {
                        assert(chars::is_white_space(b[i0 - 1]));
                        assert(!chars::is_white_space(s[i0 - 1]));
                    }
                    if i0 < i {
                        assert(chars::is_white_space(s[i - 1]));
                        assert(i - 1 < n);
                        assert(!chars::is_white_space(b[i - 1]));
                    }
                }
                assert(at[at.len() - 1] == (i, j));
            } else {
                if i < n {
                    assert(!chars::is_white_space(s[n - 1]));
                }
                assert(at[at.len() - 1] == (i, j));
            }
        }
    }
    let shown = Seq::new(at.len(), |k: int| s.subrange(at[k].0, at[k].1));
    assert forall|k: int| 0 <= k < shown.len() implies words(s)[k] == shown[k] by {
        if k < old_at.len() {
            assert(is_run(b, old_at[k].0, old_at[k].1));
            assert(words(b)[k] == b.subrange(old_at[k].0, old_at[k].1));
            assert(b.subrange(old_at[k].0, old_at[k].1) =~= s.subrange(old_at[k].0, old_at[k].1));
            if joins && !chars::is_white_space(s.last()) && k == old_at.len() - 1 {
                assert(s.subrange(old_at[k].0, n + 1) =~= words(b)[k].push(s.last()));
            }
        } else {
            assert(s.subrange(n, n + 1) =~= seq![s.last()]);
        }
    }
    assert(words(s) =~= shown);
    at
}

/// The words of a text are its longest runs without white space, all of them and in order.
pub proof fn law_words_are_runs(s: Seq<char>)
    ensures
        exists|at: Seq<(int, int)>| #[trigger]
            all_runs(s, at) && words(s).len() == at.len() && forall|k: int|
                0 <= k < at.len() ==> (#[trigger] words(s)[k]) == s.subrange(at[k].0, at[k].1),
{
    let at = lemma_word_runs(s);
    assert(all_runs(s, at));
}

/// Replacing what stands once puts the new text in its place.
pub proof fn law_replaced_once(before: Seq<char>, p: Seq<char>, after: Seq<char>, with: Seq<char>)
    requires
        p.len() > 0,
        !holds_text(after, p),
        forall|i: int| 0 <= i < before.len() ==> !occurs_at(before + p + after, p, i),
    ensures
        replaced(before + p + after, p, with) == before + with + after,
    decreases before.len(),
{
    let s = before + p + after;
    if before.len() == 0 {
        assert(s.subrange(0, p.len() as int) =~= p);
        assert(s.skip(p.len() as int) =~= after);
        law_nothing_is_replaced(after, p, with);
        assert(with + after =~= before + with + after);
    } else {
        assert(!occurs_at(s, p, 0));
        let rest = before.skip(1);
        let t = rest + p + after;
        assert(s.skip(1) =~= t);
        assert forall|i: int| 0 <= i < rest.len() implies !occurs_at(t, p, i) by {
            if occurs_at(t, p, i) {
                assert(s.subrange(i + 1, i + 1 + p.len()) =~= t.subrange(i, i + p.len()));
                assert(occurs_at(s, p, i + 1));
            }
        }
        law_replaced_once(rest, p, after, with);
        assert(seq![s[0]] + (rest + with + after) =~= before + with + after);
    }
}

/// Replacing what stands nowhere changes nothing.
pub proof fn law_nothing_is_replaced(s: Seq<char>, p: Seq<char>, with: Seq<char>)
    requires
        p.len() > 0,
        !holds_text(s, p),
    ensures
        replaced(s, p, with) == s,
    decreases s.len(),
{
    if s.len() >= p.len() {
        assert(!occurs_at(s, p, 0));
        let rest = s.skip(1);
        assert(!holds_text(rest, p)) by {
            if holds_text(rest, p) {
                let i = choose|i: int| occurs_at(rest, p, i);
                assert(rest.subrange(i, i + p.len()) =~= s.subrange(i + 1, i + 1 + p.len()));
                assert(occurs_at(s, p, i + 1));
            }
        }
        law_nothing_is_replaced(rest, p, with);
        assert(seq![s[0]] + rest =~= s);
    }
}

/// What stands behind the last `c` is the end of the text, and holds no `c`; it is the whole text
/// where there is no `c`.
pub proof fn law_after_last_is_the_last_part(s: Seq<char>, c: char)
    ensures
        !after_last(s, c).contains(c),
        ends_in(s, after_last(s, c)),
        s.contains(c) ==> after_last(s, c).len() < s.len() && s[s.len() - after_last(s, c).len()
            - 1] == c,
        !s.contains(c) ==> after_last(s, c) == s,
    decreases s.len(),
{
    let t = after_last(s, c);
    if s.len() == 0 {
        assert(s.subrange(s.len() - t.len(), s.len() as int) =~= t);
    } else if s.last() == c {
        assert(s.contains(c));
        assert(s.subrange(s.len() - t.len(), s.len() as int) =~= t);
    } else {
        let b = s.drop_last();
        let u = after_last(b, c);
        law_after_last_is_the_last_part(b, c);
        assert(t =~= u.push(s.last()));
        if t.contains(c) {
            let k = choose|k: int| 0 <= k < t.len() && t[k] == c;
            assert(u[k] == c);
        }
        assert(b.subrange(b.len() - u.len(), b.len() as int) == u);
        assert(s.subrange(s.len() - t.len(), s.len() as int) =~= t) by {
            assert forall|k: int| 0 <= k < u.len() implies s[s.len() - t.len() + k] == u[k] by {
                assert(b.subrange(b.len() - u.len(), b.len() as int)[k] == u[k]);
            }
        }
        if s.contains(c) {
            let k = choose|k: int| 0 <= k < s.len() && s[k] == c;
            assert(b[k] == c);
            assert(b.contains(c));
        }
        if b.contains(c) {
            let k = choose|k: int| 0 <= k < b.len() && b[k] == c;
            assert(s[k] == c);
        }
        if !s.contains(c) {
            assert(!b.contains(c));
            assert(t =~= s);
        }
    }
}

/// What stands in a text stands in it with more behind it.
pub proof fn lemma_holds_longer(s: Seq<char>, more: Seq<char>, text: Seq<char>)
    requires
        holds_text(s, text),
    ensures
        holds_text(s + more, text),
{
    let i = choose|i: int| occurs_at(s, text, i);
    assert((s + more).subrange(i, i + text.len()) =~= s.subrange(i, i + text.len()));
    assert(occurs_at(s + more, text, i));
}

/// A text stands in itself.
pub proof fn lemma_holds_itself(s: Seq<char>)
    ensures
        holds_text(s, s),
{
    assert(s.subrange(0, s.len() as int) =~= s);
    assert(occurs_at(s, s, 0));
}

/// A text stands in what it ends.
pub proof fn lemma_holds_behind(before: Seq<char>, text: Seq<char>)
    ensures
        holds_text(before + text, text),
{
    let s = before + text;
    assert(s.subrange(before.len() as int, s.len() as int) =~= text);
    assert(occurs_at(s, text, before.len() as int));
}

/// What follows the first `c` is what stands behind it, and there is something exactly where `c`
/// stands in the text.
pub proof fn law_after_first_is_what_follows(before: Seq<char>, c: char, after: Seq<char>)
    requires
        !before.contains(c),
    ensures
        after_first(before + seq![c] + after, c) == Some(after),
        after_first(before, c) is None,
    decreases before.len(),
{
    let s = before + seq![c] + after;
    if before.len() == 0 {
        assert(s.skip(1) =~= after);
    } else {
        assert(before.contains(before[0]));
        assert(!before.skip(1).contains(c)) by {
            if before.skip(1).contains(c) {
                let k = choose|k: int| 0 <= k < before.skip(1).len() && before.skip(1)[k] == c;
                assert(before[k + 1] == c);
            }
        }
        law_after_first_is_what_follows(before.skip(1), c, after);
        assert(s.skip(1) =~= before.skip(1) + seq![c] + after);
    }
}

/// Two texts one after the other stand in what they end.
pub proof fn lemma_holds_two(before: Seq<char>, a: Seq<char>, b: Seq<char>)
    ensures
        holds_text(before + a + b, a + b),
{
    assert(before + a + b =~= before + (a + b));
    lemma_holds_behind(before, a + b);
}

/// Three texts one after the other stand in what they end.
pub proof fn lemma_holds_three(before: Seq<char>, a: Seq<char>, b: Seq<char>, c: Seq<char>)
    ensures
        holds_text(before + a + b + c, a + b + c),
{
    assert(before + a + b + c =~= before + (a + b + c));
    lemma_holds_behind(before, a + b + c);
}

/// Four texts one after the other stand in what they end.
pub proof fn lemma_holds_four(
    before: Seq<char>,
    a: Seq<char>,
    b: Seq<char>,
    c: Seq<char>,
    d: Seq<char>,
)
    ensures
        holds_text(before + a + b + c + d, a + b + c + d),
{
    assert(before + a + b + c + d =~= before + (a + b + c + d));
    lemma_holds_behind(before, a + b + c + d);
}

/// What begins with a text begins with it with more behind it.
pub proof fn lemma_begins_longer(s: Seq<char>, more: Seq<char>, text: Seq<char>)
    requires
        s == text || begins_with(s, text),
    ensures
        begins_with(s + more, text),
{
    assert((s + more).subrange(0, text.len() as int) =~= s.subrange(0, text.len() as int));
    assert(s.subrange(0, s.len() as int) =~= s);
}

/// Each part stands in the parts put together with a separator.
pub proof fn lemma_joined_holds(parts: Seq<Seq<char>>, sep: Seq<char>, i: int)
    requires
        0 <= i < parts.len(),
    ensures
        holds_text(chars::joined(parts, sep), parts[i]),
    decreases parts.len(),
{
    if parts.len() == 1 {
        lemma_holds_itself(parts[0]);
    } else {
        let before = parts.drop_last();
        let b = chars::joined(before, sep);
        if i == parts.len() - 1 {
            lemma_holds_behind(b + sep, parts.last());
        } else {
            lemma_joined_holds(before, sep, i);
            lemma_holds_longer(b, sep, parts[i]);
            lemma_holds_longer(b + sep, parts.last(), parts[i]);
        }
    }
}

/// Text that is put together first and appended then is appended piece by piece.
pub proof fn lemma_appended(head: Seq<char>, a: Seq<char>, b: Seq<char>)
    ensures
        head + (a + b) == head + a + b,
{
    assert(head + (a + b) =~= head + a + b);
}

} // verus!
