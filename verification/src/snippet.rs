//! Line numbers.
use vstd::prelude::*;

use crate::text::{chars, number, search};
use crate::text::chars::join;
use crate::text::number::decimal_of;
use crate::text::search::split_char;

verus! {

/// The lines of `text`, each with its number in front, counted from `start`.
pub open spec fn numbered_lines(text: Seq<char>, start: nat) -> Seq<Seq<char>> {
    let lines = search::split_on(text, '\n');
    Seq::new(lines.len(), |i: int| number::decimal((start + i) as nat) + ": "@ + lines[i])
}

/// `text` with the number of each line in front of it, counted from `start`.
pub open spec fn with_line_numbers(text: Seq<char>, start: nat) -> Seq<char> {
    chars::joined(numbered_lines(text, start), "\n"@)
}

/// `text` with the number of each line in front of it, counted from `start`, or from one where
/// none is given.
pub fn add_line_numbers(text: &str, start: Option<usize>) -> (s: String)
    ensures
        s@ == with_line_numbers(
            text@,
            match start {
                Some(n) => n as nat,
                None => 1,
            },
        ),
{
    let first: usize = match start {
        Some(n) => n,
        None => 1,
    };
    let lines: Vec<String> = split_char(text, '\n');
    let ghost all = search::split_on(text@, '\n');
    let mut out: Vec<String> = Vec::new();
    for i in 0..lines.len()
        invariant
            chars::texts(lines@) == all,
            out@.len() == i,
            forall|k: int|
                0 <= k < i ==> (#[trigger] out@[k])@ == number::decimal((first + k) as nat) + ": "@
                    + all[k],
    {
        assert(all[i as int] == lines@[i as int]@);
        let mut line: String = decimal_of(first as u128 + i as u128);
        line.append(": ");
        line.append(lines[i].as_str());
        out.push(line);
    }
    assert(chars::texts(out@) =~= numbered_lines(text@, first as nat));
    join(out.as_slice(), "\n")
}

// Laws.

/// Each line stands behind its number, a colon and a space, the numbers go up by one, and there
/// are as many lines as before.
pub proof fn law_each_line_has_its_number(text: Seq<char>, start: nat)
    ensures
        search::split_on(with_line_numbers(text, start), '\n').len() == search::split_on(
            text,
            '\n',
        ).len(),
        forall|i: int|
            0 <= i < search::split_on(text, '\n').len() ==> #[trigger] search::split_on(
                with_line_numbers(text, start),
                '\n',
            )[i] == number::decimal((start + i) as nat) + ": "@ + search::split_on(text, '\n')[i],
{
    reveal_strlit("\n");
    reveal_strlit(": ");
    assert("\n"@ =~= seq!['\n']);
    let lines = search::split_on(text, '\n');
    let parts = numbered_lines(text, start);
    search::lemma_split_nonempty(text, '\n');
    search::law_pieces_hold_no_separator(text, '\n');
    assert forall|i: int| 0 <= i < parts.len() implies !(#[trigger] parts[i]).contains('\n') by {
        let d = number::decimal((start + i) as nat);
        number::law_numeral_stands_for_its_number((start + i) as nat);
        assert(parts[i] == d + ": "@ + lines[i]);
        if parts[i].contains('\n') {
            let k = choose|k: int| 0 <= k < parts[i].len() && parts[i][k] == '\n';
            if k < d.len() {
                assert(number::is_digit(d[k]));
            } else if k >= d.len() + 2 {
                assert(lines[i][k - d.len() - 2] == '\n');
                assert(lines[i].contains('\n'));
            }
        }
    }
    search::law_split_undoes_join(parts, '\n', "\n"@);
}

} // verus!
