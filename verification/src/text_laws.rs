//! What numbers and texts look like: a numeral reads back as its number, padding and trimming
//! keep the text, lines put together again are the text.

use crate::text::{
    dec, dec_int, first_index, fits_hex, hex, hex_bytes, hex_value, join, lemma_first_index_bounds,
    lemma_hex_value, lines, occurs, pad_left, pad_right, three_digits, trim_end_ws, trim_start_ws,
    trimmed, white_space,
};
use vstd::prelude::*;

verus! {

// ---- numbers -----------------------------------------------------------------------

/// A character is a decimal digit.
pub open spec fn is_digit(c: char) -> bool {
    '0' <= c && c <= '9'
}

/// The number that decimal digits write.
pub open spec fn read(s: Seq<char>) -> int
    decreases s.len(),
{
    if s.len() == 0 {
        0
    } else {
        10 * read(s.drop_last()) + (s.last() as int - '0' as int)
    }
}

/// A numeral consists of digits, has no zero in front, and reads back as its number.
pub proof fn law_numerals_are_read_back(n: nat)
    ensures
        read(dec(n)) == n,
        dec(n).len() > 0,
        forall|i: int| 0 <= i < dec(n).len() ==> is_digit(#[trigger] dec(n)[i]),
        n > 0 ==> dec(n)[0] != '0',
    decreases n,
{
    if n < 10 {
        assert(dec(n).drop_last() =~= Seq::<char>::empty());
        reveal_with_fuel(read, 2);
    } else {
        law_numerals_are_read_back(n / 10);
        assert(dec(n).drop_last() =~= dec(n / 10));
        assert(dec(n)[0] == dec(n / 10)[0]);
        assert forall|i: int| 0 <= i < dec(n).len() implies is_digit(#[trigger] dec(n)[i]) by {
            if i < dec(n / 10).len() {
                assert(dec(n)[i] == dec(n / 10)[i]);
            }
        }
    }
}

/// A number below zero has a minus in front of its digits, and no other has.
pub proof fn law_signs_are_written(n: int)
    ensures
        n >= 0 ==> is_digit(dec_int(n)[0]) && read(dec_int(n)) == n,
        n < 0 ==> dec_int(n)[0] == '-' && read(dec_int(n).skip(1)) == -n,
{
    law_numerals_are_read_back(n as nat);
    law_numerals_are_read_back((-n) as nat);
    if n < 0 {
        assert(dec_int(n).skip(1) =~= dec((-n) as nat));
    }
}

/// Three digits read back as their number.
pub proof fn law_three_digits(n: int)
    requires
        0 <= n < 1000,
    ensures
        three_digits(n).len() == 3,
        read(three_digits(n)) == n,
        forall|i: int| 0 <= i < 3 ==> is_digit(#[trigger] three_digits(n)[i]),
{
    let s = three_digits(n);
    assert(s.drop_last().drop_last().drop_last() =~= Seq::<char>::empty());
    reveal_with_fuel(read, 4);
    assert(s.drop_last().last() == s[1]);
    assert(s.drop_last().drop_last().last() == s[0]);
}

/// Bytes in hexadecimal take two digits each, one byte behind the other, and the digits of
/// each read back as the byte.
pub proof fn law_bytes_are_read_back(s: Seq<u8>, b: u8)
    ensures
        hex_bytes(Seq::empty()).len() == 0,
        ({
            let front = hex_bytes(s);
            let all = hex_bytes(s.push(b));
            &&& all.len() == front.len() + 2
            &&& all.take(front.len() as int) == front
            &&& hex_value(all.skip(front.len() as int)) == Some(b as nat)
        }),
{
    assert(s.push(b).drop_last() =~= s);
    assert(fits_hex(b as nat, 2)) by {
        reveal_with_fuel(fits_hex, 3);
    }
    lemma_hex_value(b as nat, 2);
    let front = hex_bytes(s);
    let all = hex_bytes(s.push(b));
    assert(all == front + hex(b as nat, 2));
    assert(all.take(front.len() as int) =~= front);
    assert(all.skip(front.len() as int) =~= hex(b as nat, 2));
}

// ---- padding and trimming ----------------------------------------------------------

/// A padded text has at least the width; the text is at its end, and before it are spaces.
pub proof fn law_padding_in_front(s: Seq<char>, width: nat)
    ensures
        pad_left(s, width).len() == if s.len() < width {
            width
        } else {
            s.len()
        },
        pad_left(s, width).skip(pad_left(s, width).len() - s.len()) == s,
        forall|i: int|
            0 <= i < pad_left(s, width).len() - s.len() ==> #[trigger] pad_left(s, width)[i] == ' ',
    decreases width - s.len(),
{
    if s.len() < width {
        let t = seq![' '] + s;
        law_padding_in_front(t, width);
        let p = pad_left(s, width);
        let k = p.len() - t.len();
        assert(p.skip(k + 1) =~= p.skip(k).skip(1));
        assert(t.skip(1) =~= s);
        assert(p[k] == p.skip(k)[0]);
    } else {
        assert(s.skip(0) =~= s);
    }
}

/// The same behind a text.
pub proof fn law_padding_behind(s: Seq<char>, width: nat)
    ensures
        pad_right(s, width).len() == if s.len() < width {
            width
        } else {
            s.len()
        },
        pad_right(s, width).take(s.len() as int) == s,
        forall|i: int|
            s.len() <= i < pad_right(s, width).len() ==> #[trigger] pad_right(s, width)[i] == ' ',
    decreases width - s.len(),
{
    if s.len() < width {
        let t = s.push(' ');
        law_padding_behind(t, width);
        let p = pad_right(s, width);
        assert(p.take(s.len() as int) =~= p.take(t.len() as int).take(s.len() as int));
        assert(t.take(s.len() as int) =~= s);
        assert(p[s.len() as int] == p.take(t.len() as int)[s.len() as int]);
    } else {
        assert(s.take(s.len() as int) =~= s);
    }
}

/// What is cut off at the end is white space, and no white space is left there.
pub proof fn law_trimming_the_end(s: Seq<char>)
    ensures
        ({
            let t = trim_end_ws(s);
            &&& t.len() <= s.len() && t == s.take(t.len() as int)
            &&& forall|i: int| t.len() <= i < s.len() ==> white_space(#[trigger] s[i])
            &&& t.len() > 0 ==> !white_space(t.last())
        }),
    decreases s.len(),
{
    if s.len() > 0 && white_space(s.last()) {
        law_trimming_the_end(s.drop_last());
        let t = trim_end_ws(s);
        assert(s.drop_last().take(t.len() as int) =~= s.take(t.len() as int));
        assert forall|i: int| t.len() <= i < s.len() implies white_space(#[trigger] s[i]) by {
            if i < s.len() - 1 {
                assert(s.drop_last()[i] == s[i]);
            }
        }
    } else {
        assert(s.take(s.len() as int) =~= s);
    }
}

/// What is cut off at the start is white space, and no white space is left there.
pub proof fn law_trimming_the_start(s: Seq<char>)
    ensures
        ({
            let t = trim_start_ws(s);
            let k = s.len() - t.len();
            &&& k >= 0 && t == s.skip(k)
            &&& forall|i: int| 0 <= i < k ==> white_space(#[trigger] s[i])
            &&& t.len() > 0 ==> !white_space(t[0])
        }),
    decreases s.len(),
{
    if s.len() > 0 && white_space(s[0]) {
        law_trimming_the_start(s.skip(1));
        let t = trim_start_ws(s);
        let k = s.len() - t.len();
        assert(s.skip(1).skip(k - 1) =~= s.skip(k));
        assert forall|i: int| 0 <= i < k implies white_space(#[trigger] s[i]) by {
            if i > 0 {
                assert(s.skip(1)[i - 1] == s[i]);
            }
        }
    } else {
        assert(s.skip(0) =~= s);
    }
}

/// A trimmed text is what lies between the white space at both ends.
pub proof fn law_trimming(a: Seq<char>, s: Seq<char>, b: Seq<char>)
    requires
        forall|i: int| 0 <= i < a.len() ==> white_space(#[trigger] a[i]),
        forall|i: int| 0 <= i < b.len() ==> white_space(#[trigger] b[i]),
        s.len() > 0 && !white_space(s[0]) && !white_space(s.last()),
    ensures
        trimmed(a + s + b) == s,
{
    let all = a + s + b;
    let t = trim_start_ws(all);
    law_trimming_the_start(all);
    let k = all.len() - t.len();
    assert(!white_space(all[a.len() as int])) by {
        assert(all[a.len() as int] == s[0]);
    }
    assert(k <= a.len());
    if k < a.len() {
        assert(t[0] == a[k]);
    }
    assert(t =~= s + b);
    let u = trim_end_ws(t);
    law_trimming_the_end(t);
    assert(t[s.len() - 1] == s.last());
    assert(u.len() >= s.len());
    if u.len() > s.len() {
        assert(u.last() == b[u.len() - s.len() - 1]);
    }
    assert(u =~= s);
}

// ---- lines and lists ---------------------------------------------------------------

/// A text begins with its first line; the line feed and a carriage return before it belong
/// to no line, and the rest are the lines of what is behind.
pub proof fn law_lines(a: Seq<char>, b: Seq<char>)
    requires
        forall|i: int| 0 <= i < a.len() ==> #[trigger] a[i] != '\n',
    ensures
        lines(Seq::empty()).len() == 0,
        a.len() > 0 ==> lines(a) == seq![a],
        a.len() == 0 || a.last() != '\r' ==> lines(a + seq!['\n'] + b) == seq![a] + lines(b),
        lines(a + seq!['\r', '\n'] + b) == seq![a] + lines(b),
{
    lemma_first_index_bounds(a, '\n');
    let s = a + seq!['\n'] + b;
    lemma_first_index_bounds(s, '\n');
    assert(s[a.len() as int] == '\n');
    let i = first_index(s, '\n');
    if i < a.len() {
        assert(s[i] == a[i]);
    }
    assert(i == a.len());
    assert(s.take(i) =~= a && s.skip(i + 1) =~= b);
    let r = a + seq!['\r', '\n'] + b;
    lemma_first_index_bounds(r, '\n');
    assert(r[a.len() as int + 1] == '\n');
    let j = first_index(r, '\n');
    if j < a.len() {
        assert(r[j] == a[j]);
    }
    assert(r[a.len() as int] == '\r');
    assert(j == a.len() + 1);
    assert(r.take(j) =~= a.push('\r') && r.skip(j + 1) =~= b);
    assert(a.push('\r').drop_last() =~= a);
}

/// Things put together have the separator between any two, and none at the ends.
pub proof fn law_joining(parts: Seq<Seq<char>>, part: Seq<char>, sep: Seq<char>)
    ensures
        join(Seq::empty(), sep).len() == 0,
        join(seq![part], sep) == part,
        parts.len() > 0 ==> join(parts.push(part), sep) == join(parts, sep) + sep + part,
{
    assert(parts.push(part).drop_last() =~= parts);
}

/// A text occurs in whatever has it somewhere within.
pub proof fn law_occurrences(a: Seq<char>, sub: Seq<char>, b: Seq<char>, s: Seq<char>)
    ensures
        occurs(a + sub + b, sub),
        s.len() < sub.len() ==> !occurs(s, sub),
{
    let all = a + sub + b;
    assert(all.subrange(a.len() as int, a.len() as int + sub.len()) =~= sub);
}

} // verus!
