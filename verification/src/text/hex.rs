//! Hexadecimal digits and percent-encoding.
use vstd::prelude::*;

verus! {

/// The hexadecimal digit for `d`, which is below sixteen, with capital letters or without.
pub open spec fn hex_digit(d: u8, capital: bool) -> char {
    if d < 10 {
        (d + 48) as u8 as char
    } else if capital {
        (d + 55) as u8 as char
    } else {
        (d + 87) as u8 as char
    }
}

fn hex_digit_of(d: u8, capital: bool) -> (c: char)
    requires
        d < 16,
    ensures
        c == hex_digit(d, capital),
{
    if d < 10 {
        (d + 48) as char
    } else if capital {
        (d + 55) as char
    } else {
        (d + 87) as char
    }
}

/// The two hexadecimal digits of a byte.
pub open spec fn hex_pair(b: u8, capital: bool) -> Seq<char> {
    seq![hex_digit(b / 16, capital), hex_digit(b % 16, capital)]
}

/// Appends the two hexadecimal digits of a byte.
fn push_hex(s: &mut String, b: u8, capital: bool)
    ensures
        final(s)@ == old(s)@ + hex_pair(b, capital),
{
    s.push(hex_digit_of(b / 16, capital));
    s.push(hex_digit_of(b % 16, capital));
    assert(s@ =~= old(s)@ + hex_pair(b, capital));
}

/// The bytes in hexadecimal digits, two for each.
pub open spec fn hex_text(bytes: Seq<u8>) -> Seq<char>
    decreases bytes.len(),
{
    if bytes.len() == 0 {
        Seq::empty()
    } else {
        hex_text(bytes.drop_last()) + hex_pair(bytes.last(), false)
    }
}

/// The bytes in hexadecimal digits, two for each, in small letters.
pub fn hex_of(bytes: &[u8]) -> (s: String)
    ensures
        s@ == hex_text(bytes@),
{
    let mut s: String = String::new();
    assert(bytes@.take(0) =~= Seq::empty());
    for i in 0..bytes.len()
        invariant
            s@ == hex_text(bytes@.take(i as int)),
    {
        assert(bytes@.take(i + 1).drop_last() =~= bytes@.take(i as int));
        push_hex(&mut s, bytes[i], false);
    }
    assert(bytes@.take(bytes@.len() as int) =~= bytes@);
    s
}

/// What a URI leaves as it is.
#[derive(Clone, Copy, Debug, PartialEq, Eq, Structural)]
pub enum UriPart {
    /// A path: letters, digits and `-_.!~*'();,/:@&=+$`.
    Path,
    /// A value of a query: letters, digits and `-_.!~*'()`.
    Value,
}

/// Whether a byte is an ASCII letter or digit.
pub open spec fn is_alphanumeric(b: u8) -> bool {
    48 <= b <= 57 || 65 <= b <= 90 || 97 <= b <= 122
}

/// Whether a byte is one of `-_.!~*'()`.
pub open spec fn is_mark(b: u8) -> bool {
    b == 45 || b == 95 || b == 46 || b == 33 || b == 126 || b == 42 || b == 39 || b == 40 || b == 41
}

/// Whether a byte is one of `;,/:@&=+$`.
pub open spec fn is_path_mark(b: u8) -> bool {
    b == 59 || b == 44 || b == 47 || b == 58 || b == 64 || b == 38 || b == 61 || b == 43 || b == 36
}

/// Whether a byte stands for itself in this part of a URI.
pub open spec fn is_kept(b: u8, part: UriPart) -> bool {
    is_alphanumeric(b) || is_mark(b) || (part == UriPart::Path && is_path_mark(b))
}

fn kept(b: u8, part: UriPart) -> (r: bool)
    ensures
        r == is_kept(b, part),
{
    (48 <= b && b <= 57) || (65 <= b && b <= 90) || (97 <= b && b <= 122) || b == 45 || b == 95 || b
        == 46 || b == 33 || b == 126 || b == 42 || b == 39 || b == 40 || b == 41 || (part
        == UriPart::Path && (b == 59 || b == 44 || b == 47 || b == 58 || b == 64 || b == 38 || b == 61
        || b == 43 || b == 36))
}

/// The bytes, each as itself where it is kept, else as `%` and two hexadecimal digits.
pub open spec fn percent_encoded(bytes: Seq<u8>, part: UriPart) -> Seq<char>
    decreases bytes.len(),
{
    if bytes.len() == 0 {
        Seq::empty()
    } else {
        let before = percent_encoded(bytes.drop_last(), part);
        let b = bytes.last();
        if is_kept(b, part) {
            before.push(b as char)
        } else {
            before + seq!['%'] + hex_pair(b, true)
        }
    }
}

/// The UTF-8 bytes of `s`, each as itself where it is kept, else as `%` and two hexadecimal
/// digits.
pub fn percent_encode(s: &str, part: UriPart) -> (r: String)
    ensures
        r@ == percent_encoded(vstd::utf8::encode_utf8(s@), part),
{
    let bytes: &[u8] = s.as_bytes();
    let mut r: String = String::new();
    assert(bytes@.take(0) =~= Seq::empty());
    for i in 0..bytes.len()
        invariant
            r@ == percent_encoded(bytes@.take(i as int), part),
    {
        assert(bytes@.take(i + 1).drop_last() =~= bytes@.take(i as int));
        let b: u8 = bytes[i];
        if kept(b, part) {
            r.push(b as char);
        } else {
            let ghost r0 = r@;
            r.push('%');
            assert(r@ =~= r0 + seq!['%']);
            push_hex(&mut r, b, true);
        }
    }
    assert(bytes@.take(bytes@.len() as int) =~= bytes@);
    r
}

// Laws.

/// The number that a hexadecimal digit stands for.
pub open spec fn digit_value(c: char) -> int {
    if '0' <= c <= '9' {
        c as int - 48
    } else if 'A' <= c <= 'F' {
        c as int - 55
    } else {
        c as int - 87
    }
}

proof fn lemma_pair_value(b: u8, capital: bool)
    ensures
        digit_value(hex_pair(b, capital)[0]) * 16 + digit_value(hex_pair(b, capital)[1]) == b,
        forall|i: int|
            0 <= i < 2 ==> '0' <= #[trigger] hex_pair(b, capital)[i] <= '9' || (if capital {
                'A' <= hex_pair(b, capital)[i] <= 'F'
            } else {
                'a' <= hex_pair(b, capital)[i] <= 'f'
            }),
{
}

/// Hexadecimal digits give each byte by two digits, in order.
pub proof fn law_hex_digits_give_the_bytes(bytes: Seq<u8>)
    ensures
        hex_text(bytes).len() == 2 * bytes.len(),
        forall|i: int|
            0 <= i < bytes.len() ==> digit_value(hex_text(bytes)[2 * i]) * 16 + digit_value(
                hex_text(bytes)[2 * i + 1],
            ) == #[trigger] bytes[i],
        forall|i: int|
            0 <= i < hex_text(bytes).len() ==> '0' <= #[trigger] hex_text(bytes)[i] <= '9' || 'a'
                <= hex_text(bytes)[i] <= 'f',
    decreases bytes.len(),
{
    if bytes.len() > 0 {
        let b = bytes.drop_last();
        law_hex_digits_give_the_bytes(b);
        lemma_pair_value(bytes.last(), false);
        let (h, t, p) = (hex_text(bytes), hex_text(b), hex_pair(bytes.last(), false));
        assert forall|i: int| 0 <= i < bytes.len() implies digit_value(h[2 * i]) * 16
            + digit_value(h[2 * i + 1]) == #[trigger] bytes[i] by {
            if i < b.len() {
                assert(h[2 * i] == t[2 * i] && h[2 * i + 1] == t[2 * i + 1]);
                assert(b[i] == bytes[i]);
            } else {
                assert(h[2 * i] == p[0] && h[2 * i + 1] == p[1]);
            }
        }
        assert forall|i: int| 0 <= i < h.len() implies '0' <= #[trigger] h[i] <= '9' || 'a' <= h[i]
            <= 'f' by {
            if i < t.len() {
                assert(h[i] == t[i]);
            } else {
                assert(h[i] == p[i - t.len()]);
            }
        }
    }
}

/// What a reader of a URI takes from percent-encoded text: `%` and two digits are one byte, any
/// other character is its own.
pub open spec fn percent_read(s: Seq<char>) -> Seq<u8>
    decreases s.len(),
{
    if s.len() == 0 {
        Seq::empty()
    } else if s.len() >= 3 && s[s.len() - 3] == '%' {
        percent_read(s.take(s.len() - 3)).push(
            (digit_value(s[s.len() - 2]) * 16 + digit_value(s.last())) as u8,
        )
    } else {
        percent_read(s.drop_last()).push(s.last() as u8)
    }
}

proof fn lemma_percent_is_no_end(bytes: Seq<u8>, part: UriPart)
    ensures
        ({
            let s = percent_encoded(bytes, part);
            &&& s.len() >= 1 ==> s.last() != '%'
            &&& s.len() >= 2 ==> s[s.len() - 2] != '%'
        }),
    decreases bytes.len(),
{
    if bytes.len() > 0 {
        lemma_percent_is_no_end(bytes.drop_last(), part);
        lemma_pair_value(bytes.last(), true);
        let before = percent_encoded(bytes.drop_last(), part);
        let s = percent_encoded(bytes, part);
        let b = bytes.last();
        if is_kept(b, part) {
            assert(b as char != '%');
            if s.len() >= 2 {
                assert(s[s.len() - 2] == before.last());
            }
        } else {
            assert(s.last() == hex_pair(b, true)[1]);
            assert(s[s.len() - 2] == hex_pair(b, true)[0]);
        }
    }
}

/// Percent-encoding keeps the text: a reader of the URI gets back the bytes that were written.
pub proof fn law_percent_encoding_keeps_the_bytes(bytes: Seq<u8>, part: UriPart)
    ensures
        percent_read(percent_encoded(bytes, part)) == bytes,
    decreases bytes.len(),
{
    if bytes.len() > 0 {
        let rest = bytes.drop_last();
        let before = percent_encoded(rest, part);
        let s = percent_encoded(bytes, part);
        let b = bytes.last();
        law_percent_encoding_keeps_the_bytes(rest, part);
        lemma_percent_is_no_end(rest, part);
        lemma_pair_value(b, true);
        if is_kept(b, part) {
            assert(s.drop_last() =~= before);
            if s.len() >= 3 {
                assert(s[s.len() - 3] == before[before.len() - 2]);
            }
            assert(s.last() == b as char);
        } else {
            assert(s.take(s.len() - 3) =~= before);
            assert(s[s.len() - 3] == '%');
            assert(s.last() == hex_pair(b, true)[1]);
            assert(s[s.len() - 2] == hex_pair(b, true)[0]);
        }
        assert(rest.push(b) =~= bytes);
    } else {
        assert(bytes =~= Seq::empty());
    }
}

/// Percent-encoded text holds only characters that a URI can hold: no white space, no quotes, no
/// brackets, and `%` only before two digits.
pub proof fn law_percent_encoding_is_safe(bytes: Seq<u8>, part: UriPart)
    ensures
        forall|i: int|
            0 <= i < percent_encoded(bytes, part).len() ==> {
                let c = #[trigger] percent_encoded(bytes, part)[i];
                c == '%' || (c as u32 <= 0x7f && is_kept(c as u8, part))
            },
    decreases bytes.len(),
{
    if bytes.len() > 0 {
        let rest = bytes.drop_last();
        let before = percent_encoded(rest, part);
        let s = percent_encoded(bytes, part);
        let b = bytes.last();
        law_percent_encoding_is_safe(rest, part);
        lemma_pair_value(b, true);
        assert forall|i: int| 0 <= i < s.len() implies {
            let c = #[trigger] s[i];
            c == '%' || (c as u32 <= 0x7f && is_kept(c as u8, part))
        } by {
            if i < before.len() {
                assert(s[i] == before[i]);
            } else if is_kept(b, part) {
                assert(s[i] == b as char);
            } else if i > before.len() {
                assert(s[i] == hex_pair(b, true)[i - before.len() - 1]);
            }
        }
    }
}

} // verus!
