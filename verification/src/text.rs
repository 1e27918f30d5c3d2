//! Text as sequences of characters: concatenation, numbers in decimal and hexadecimal,
//! prefixes, trimming and byte lengths. Everything above this module states its strings
//! with the specification functions defined here.

use vstd::prelude::*;
use vstd::string::*;
use vstd::utf8::*;

verus! {

// ---- deep views of vectors ---------------------------------------------------------

/// Appending to a vector appends to its deep view.
pub proof fn lemma_deep_push<T: DeepView>(v: Seq<T>, x: T)
    ensures
        deep(v.push(x)) == deep(v).push(x.deep_view()),
{
    assert(deep(v.push(x)) =~= deep(v).push(x.deep_view()));
}

/// Replacing an element replaces it in the deep view.
pub proof fn lemma_deep_update<T: DeepView>(v: Seq<T>, i: int, x: T)
    requires
        0 <= i < v.len(),
    ensures
        deep(v.update(i, x)) == deep(v).update(i, x.deep_view()),
{
    assert(deep(v.update(i, x)) =~= deep(v).update(i, x.deep_view()));
}

/// Removing an element removes it from the deep view.
pub proof fn lemma_deep_remove<T: DeepView>(v: Seq<T>, i: int)
    requires
        0 <= i < v.len(),
    ensures
        deep(v.remove(i)) == deep(v).remove(i),
{
    assert(deep(v.remove(i)) =~= deep(v).remove(i));
}

/// The deep view of a sequence: every element by its own deep view.
pub open spec fn deep<T: DeepView>(v: Seq<T>) -> Seq<T::V> {
    Seq::new(v.len(), |i: int| v[i].deep_view())
}

/// Appends `x` to `v`.
pub fn push_deep<T: DeepView>(v: &mut Vec<T>, x: T)
    ensures
        final(v).deep_view() == old(v).deep_view().push(x.deep_view()),
        final(v)@ == old(v)@.push(x),
{
    proof {
        lemma_deep_push(v@, x);
    }
    v.push(x);
}

/// The index of the first element of `s` that `p` holds of.
pub open spec fn first_where<T>(s: Seq<T>, p: spec_fn(T) -> bool) -> Option<int>
    decreases s.len(),
{
    if s.len() == 0 {
        None
    } else if p(s[0]) {
        Some(0int)
    } else {
        match first_where(s.skip(1), p) {
            Some(i) => Some(i + 1),
            None => None,
        }
    }
}

/// The first index is the one with no such element before it.
pub proof fn lemma_first_where<T>(s: Seq<T>, p: spec_fn(T) -> bool, i: int)
    requires
        0 <= i <= s.len(),
        forall|j: int| 0 <= j < i ==> !p(#[trigger] s[j]),
        i < s.len() ==> p(s[i]),
    ensures
        first_where(s, p) == if i < s.len() {
            Some(i)
        } else {
            None
        },
    decreases s.len(),
{
    if s.len() > 0 && !p(s[0]) {
        assert forall|j: int| 0 <= j < i - 1 implies !p(#[trigger] s.skip(1)[j]) by {
            assert(s.skip(1)[j] == s[j + 1]);
        }
        lemma_first_where(s.skip(1), p, i - 1);
    }
}

/// What a first index says of the elements.
pub proof fn lemma_first_where_holds<T>(s: Seq<T>, p: spec_fn(T) -> bool)
    ensures
        match first_where(s, p) {
            Some(i) => 0 <= i < s.len() && p(s[i]) && forall|j: int| 0 <= j < i ==> !p(#[trigger] s[j]),
            None => forall|j: int| 0 <= j < s.len() ==> !p(#[trigger] s[j]),
        },
    decreases s.len(),
{
    if s.len() > 0 && !p(s[0]) {
        let t = s.skip(1);
        lemma_first_where_holds(t, p);
        match first_where(t, p) {
            Some(i) => {
                assert forall|j: int| 0 <= j < i + 1 implies !p(#[trigger] s[j]) by {
                    if j > 0 {
                        assert(s[j] == t[j - 1]);
                    }
                }
            },
            None => {
                assert forall|j: int| 0 <= j < s.len() implies !p(#[trigger] s[j]) by {
                    if j > 0 {
                        assert(s[j] == t[j - 1]);
                    }
                }
            },
        }
    }
}

// ---- the standard library's string operations -------------------------------------

/// `String::push`: appends one character at the end.
#[verifier::external_body]
pub(crate) fn push_char(s: &mut String, c: char)
    ensures
        final(s)@ == old(s)@.push(c),
{
    s.push(c)
}

/// `str::eq`: whether the two strings hold the same characters.
#[verifier::external_body]
pub(crate) fn same(a: &str, b: &str) -> (r: bool)
    ensures
        r == (a@ == b@),
{
    a == b
}

/// White space: the characters with the Unicode property White_Space.
pub open spec fn white_space(c: char) -> bool {
    let u = c as u32;
    ||| 0x09 <= u <= 0x0d
    ||| u == 0x20 || u == 0x85 || u == 0xa0 || u == 0x1680
    ||| 0x2000 <= u <= 0x200a
    ||| u == 0x2028 || u == 0x2029 || u == 0x202f || u == 0x205f || u == 0x3000
}

/// `char::is_whitespace`: whether the character is white space.
#[verifier::external_body]
pub(crate) fn is_whitespace(c: char) -> (r: bool)
    ensures
        r == white_space(c),
{
    c.is_whitespace()
}

/// `str::from_utf8`: the text that the bytes encode, exactly when they are valid UTF-8.
#[verifier::external_body]
pub(crate) fn from_utf8(bytes: &[u8]) -> (r: Option<&str>)
    ensures
        match r {
            Some(s) => valid_utf8(bytes@) && s.spec_bytes() == bytes@,
            None => !valid_utf8(bytes@),
        },
{
    std::str::from_utf8(bytes).ok()
}

/// What the standard library's `{:?}` writes for a string: quoted and escaped.
pub uninterp spec fn debug_text(s: Seq<char>) -> Seq<char>;

/// `format!` with `{:?}` on a string; the text depends on the characters alone.
#[verifier::external_body]
pub(crate) fn debug_of(s: &str) -> (r: String)
    ensures
        r@ == debug_text(s@),
{
    format!("{s:?}")
}

// ---- characters --------------------------------------------------------------------

/// The characters of a string, as a vector.
pub fn chars_of(s: &str) -> (r: Vec<char>)
    ensures
        r@ == s@,
{
    let mut v: Vec<char> = Vec::new();
    for c in it: s.chars()
        invariant
            v@ == s@.take(it.index()),
            it.seq() == s@,
    {
        v.push(c);
        assert(v@ =~= s@.take(it.index() + 1));
    }
    assert(v@ =~= s@);
    v
}

/// The string made of `v[from..to]`.
pub fn text_of(v: &Vec<char>, from: usize, to: usize) -> (r: String)
    requires
        from <= to <= v@.len(),
    ensures
        r@ == v@.subrange(from as int, to as int),
{
    let mut s = String::new();
    let mut i: usize = from;
    while i < to
        invariant
            from <= i <= to <= v@.len(),
            s@ == v@.subrange(from as int, i as int),
        decreases to - i,
    {
        push_char(&mut s, v[i]);
        assert(v@.subrange(from as int, i + 1) =~= v@.subrange(from as int, i as int).push(v@[i as int]));
        i = i + 1;
    }
    s
}

// ---- concatenation -----------------------------------------------------------------

pub fn cat2(a: &str, b: &str) -> (r: String)
    ensures
        r@ == a@ + b@,
{
    let mut s = a.to_owned();
    s.append(b);
    s
}

pub fn cat3(a: &str, b: &str, c: &str) -> (r: String)
    ensures
        r@ == a@ + b@ + c@,
{
    let mut s = cat2(a, b);
    s.append(c);
    s
}

pub fn cat4(a: &str, b: &str, c: &str, d: &str) -> (r: String)
    ensures
        r@ == a@ + b@ + c@ + d@,
{
    let mut s = cat3(a, b, c);
    s.append(d);
    s
}

pub fn cat5(a: &str, b: &str, c: &str, d: &str, e: &str) -> (r: String)
    ensures
        r@ == a@ + b@ + c@ + d@ + e@,
{
    let mut s = cat4(a, b, c, d);
    s.append(e);
    s
}

pub fn cat6(a: &str, b: &str, c: &str, d: &str, e: &str, f: &str) -> (r: String)
    ensures
        r@ == a@ + b@ + c@ + d@ + e@ + f@,
{
    let mut s = cat5(a, b, c, d, e);
    s.append(f);
    s
}

pub fn cat7(a: &str, b: &str, c: &str, d: &str, e: &str, f: &str, g: &str) -> (r: String)
    ensures
        r@ == a@ + b@ + c@ + d@ + e@ + f@ + g@,
{
    let mut s = cat6(a, b, c, d, e, f);
    s.append(g);
    s
}

// ---- numbers -----------------------------------------------------------------------

/// The digit of value `d` in base 16, in lower case.
pub open spec fn digit_char(d: int) -> char {
    if d == 0 { '0' }
    else if d == 1 { '1' }
    else if d == 2 { '2' }
    else if d == 3 { '3' }
    else if d == 4 { '4' }
    else if d == 5 { '5' }
    else if d == 6 { '6' }
    else if d == 7 { '7' }
    else if d == 8 { '8' }
    else if d == 9 { '9' }
    else if d == 10 { 'a' }
    else if d == 11 { 'b' }
    else if d == 12 { 'c' }
    else if d == 13 { 'd' }
    else if d == 14 { 'e' }
    else { 'f' }
}

/// The value of a hexadecimal digit of either case.
pub open spec fn digit_value(c: char) -> Option<int> {
    if '0' <= c && c <= '9' {
        Some(c as int - '0' as int)
    } else if 'a' <= c && c <= 'f' {
        Some(c as int - 'a' as int + 10)
    } else if 'A' <= c && c <= 'F' {
        Some(c as int - 'A' as int + 10)
    } else {
        None
    }
}

/// A digit reads back as its value.
pub proof fn lemma_digit_value(d: int)
    requires
        0 <= d < 16,
    ensures
        digit_value(digit_char(d)) == Some(d),
{
}

pub fn digit(d: u32) -> (c: char)
    requires
        d < 16,
    ensures
        c == digit_char(d as int),
{
    match d {
        0 => '0',
        1 => '1',
        2 => '2',
        3 => '3',
        4 => '4',
        5 => '5',
        6 => '6',
        7 => '7',
        8 => '8',
        9 => '9',
        10 => 'a',
        11 => 'b',
        12 => 'c',
        13 => 'd',
        14 => 'e',
        _ => 'f',
    }
}

pub fn value_of(c: char) -> (r: Option<u32>)
    ensures
        match r {
            Some(v) => digit_value(c) == Some(v as int) && v < 16,
            None => digit_value(c) is None,
        },
{
    if '0' <= c && c <= '9' {
        Some(c as u32 - '0' as u32)
    } else if 'a' <= c && c <= 'f' {
        Some(c as u32 - 'a' as u32 + 10)
    } else if 'A' <= c && c <= 'F' {
        Some(c as u32 - 'A' as u32 + 10)
    } else {
        None
    }
}

/// The decimal numeral of `n`, without leading zeros.
pub open spec fn dec(n: nat) -> Seq<char>
    decreases n,
{
    if n < 10 {
        seq![digit_char(n as int)]
    } else {
        dec(n / 10).push(digit_char((n % 10) as int))
    }
}

/// The decimal numeral of `n`, with a minus sign where it is negative.
pub open spec fn dec_int(n: int) -> Seq<char> {
    if n < 0 {
        seq!['-'] + dec((-n) as nat)
    } else {
        dec(n as nat)
    }
}

/// The last `width` hexadecimal digits of `n`, in lower case, padded with zeros.
pub open spec fn hex(n: nat, width: nat) -> Seq<char>
    decreases width,
{
    if width == 0 {
        Seq::empty()
    } else {
        hex(n / 16, (width - 1) as nat).push(digit_char((n % 16) as int))
    }
}

/// The number that `s` writes in base 16, if every character is a digit.
pub open spec fn hex_value(s: Seq<char>) -> Option<nat>
    decreases s.len(),
{
    if s.len() == 0 {
        Some(0nat)
    } else {
        match (hex_value(s.drop_last()), digit_value(s.last())) {
            (Some(v), Some(d)) => Some((16 * v + d) as nat),
            _ => None,
        }
    }
}

/// `n` fits in `width` hexadecimal digits.
pub open spec fn fits_hex(n: nat, width: nat) -> bool
    decreases width,
{
    if width == 0 {
        n == 0
    } else {
        fits_hex(n / 16, (width - 1) as nat)
    }
}

/// Padded hexadecimal reads back as the number that it writes.
pub proof fn lemma_hex_value(n: nat, width: nat)
    requires
        fits_hex(n, width),
    ensures
        hex_value(hex(n, width)) == Some(n),
        hex(n, width).len() == width,
    decreases width,
{
    if width > 0 {
        lemma_hex_value(n / 16, (width - 1) as nat);
        let s = hex(n, width);
        assert(s.drop_last() =~= hex(n / 16, (width - 1) as nat));
        lemma_digit_value((n % 16) as int);
    }
}

/// Every character of a padded hexadecimal numeral is a digit in lower case.
pub proof fn lemma_hex_digits(n: nat, width: nat)
    ensures
        hex(n, width).len() == width,
        forall|i: int| 0 <= i < width ==> ('0' <= #[trigger] hex(n, width)[i] && hex(n, width)[i] <= '9')
            || ('a' <= hex(n, width)[i] && hex(n, width)[i] <= 'f'),
    decreases width,
{
    if width > 0 {
        lemma_hex_digits(n / 16, (width - 1) as nat);
    }
}

pub fn dec_u64(n: u64) -> (r: String)
    ensures
        r@ == dec(n as nat),
    decreases n,
{
    if n < 10 {
        let mut s = String::new();
        push_char(&mut s, digit(n as u32));
        assert(s@ =~= seq![digit_char(n as int)]);
        s
    } else {
        let mut s = dec_u64(n / 10);
        push_char(&mut s, digit((n % 10) as u32));
        s
    }
}

pub fn dec_i64(n: i64) -> (r: String)
    ensures
        r@ == dec_int(n as int),
{
    if n < 0 {
        let m: u64 = if n == i64::MIN { 0x8000_0000_0000_0000u64 } else { (-n) as u64 };
        let mut s = String::new();
        push_char(&mut s, '-');
        let d = dec_u64(m);
        s.append(d.as_str());
        assert(s@ =~= seq!['-'] + dec((-n) as nat));
        s
    } else {
        dec_u64(n as u64)
    }
}

/// `s` with spaces in front, to at least `width` characters.
pub open spec fn pad_left(s: Seq<char>, width: nat) -> Seq<char>
    decreases width - s.len(),
{
    if s.len() >= width {
        s
    } else {
        pad_left(seq![' '] + s, width)
    }
}

/// `s` with spaces behind, to at least `width` characters.
pub open spec fn pad_right(s: Seq<char>, width: nat) -> Seq<char>
    decreases width - s.len(),
{
    if s.len() >= width {
        s
    } else {
        pad_right(s.push(' '), width)
    }
}

/// The `{:>width}` of a formatted text.
pub fn padded_left(s: String, width: usize) -> (r: String)
    ensures
        r@ == pad_left(s@, width as nat),
{
    let ghost goal = pad_left(s@, width as nat);
    let mut t = s;
    let mut n: usize = t.as_str().unicode_len();
    while n < width
        invariant
            n == t@.len(),
            pad_left(t@, width as nat) == goal,
        decreases width - n,
    {
        let longer = cat2(" ", t.as_str());
        proof {
            reveal_strlit(" ");
            assert(longer@ =~= seq![' '] + t@);
        }
        t = longer;
        n = n + 1;
    }
    t
}

/// The `{:<width}` of a formatted text.
pub fn padded_right(s: String, width: usize) -> (r: String)
    ensures
        r@ == pad_right(s@, width as nat),
{
    let ghost goal = pad_right(s@, width as nat);
    let mut t = s;
    let mut n: usize = t.as_str().unicode_len();
    while n < width
        invariant
            n == t@.len(),
            pad_right(t@, width as nat) == goal,
        decreases width - n,
    {
        push_char(&mut t, ' ');
        n = n + 1;
    }
    t
}

/// Three decimal digits.
pub open spec fn three_digits(n: int) -> Seq<char> {
    seq![digit_char(n / 100), digit_char((n / 10) % 10), digit_char(n % 10)]
}

pub fn three_digits_of(n: u32) -> (r: String)
    requires
        n < 1000,
    ensures
        r@ == three_digits(n as int),
{
    let mut s = String::new();
    push_char(&mut s, digit(n / 100));
    push_char(&mut s, digit((n / 10) % 10));
    push_char(&mut s, digit(n % 10));
    assert(s@ =~= three_digits(n as int));
    s
}

/// Bytes in hexadecimal, two digits each, without separators.
pub open spec fn hex_bytes(s: Seq<u8>) -> Seq<char>
    decreases s.len(),
{
    if s.len() == 0 {
        Seq::empty()
    } else {
        hex_bytes(s.drop_last()) + hex(s.last() as nat, 2)
    }
}

/// Bytes in hexadecimal, two digits each, without separators.
pub fn bytes_hex(bytes: &[u8]) -> (r: String)
    ensures
        r@ == hex_bytes(bytes@),
{
    let mut s = String::new();
    let mut i: usize = 0;
    assert(s@ =~= hex_bytes(bytes@.take(0)));
    while i < bytes.len()
        invariant
            i <= bytes@.len(),
            s@ == hex_bytes(bytes@.take(i as int)),
        decreases bytes@.len() - i,
    {
        let h = hex_text(bytes[i] as u32, 2);
        s.append(h.as_str());
        assert(bytes@.take(i + 1).drop_last() =~= bytes@.take(i as int));
        i = i + 1;
    }
    assert(bytes@.take(i as int) =~= bytes@);
    s
}

/// The length of a string in bytes.
pub fn byte_len(s: &str) -> (r: usize)
    ensures
        r == encode_utf8(s@).len(),
{
    s.as_bytes().len()
}

/// `n` in hexadecimal, padded to `width` digits.
pub fn hex_text(n: u32, width: u32) -> (r: String)
    ensures
        r@ == hex(n as nat, width as nat),
    decreases width,
{
    if width == 0 {
        let s = String::new();
        assert(s@ =~= hex(n as nat, 0));
        s
    } else {
        let mut s = hex_text(n / 16, width - 1);
        push_char(&mut s, digit(n % 16));
        s
    }
}

// ---- searching and cutting ---------------------------------------------------------

/// What is left of `s` behind `p`, if `s` begins with `p`.
pub open spec fn behind(s: Seq<char>, p: Seq<char>) -> Option<Seq<char>> {
    if p.is_prefix_of(s) {
        Some(s.skip(p.len() as int))
    } else {
        None
    }
}

/// What is left of `s` in front of `q`, if `s` ends with `q`.
pub open spec fn in_front(s: Seq<char>, q: Seq<char>) -> Option<Seq<char>> {
    if q.is_suffix_of(s) {
        Some(s.take(s.len() - q.len()))
    } else {
        None
    }
}

/// Cutting off what was put in front gives back the rest.
pub proof fn lemma_behind(p: Seq<char>, s: Seq<char>)
    ensures
        behind(p + s, p) == Some(s),
{
    assert((p + s).subrange(0, p.len() as int) =~= p);
    assert((p + s).skip(p.len() as int) =~= s);
}

/// Cutting off what was put behind gives back the rest.
pub proof fn lemma_in_front(s: Seq<char>, q: Seq<char>)
    ensures
        in_front(s + q, q) == Some(s),
{
    assert((s + q).subrange((s + q).len() - q.len(), (s + q).len() as int) =~= q);
    assert((s + q).take((s + q).len() - q.len()) =~= s);
}

/// The index of the first `c` in `s`, or the length of `s` where there is none.
pub open spec fn first_index(s: Seq<char>, c: char) -> int
    decreases s.len(),
{
    if s.len() == 0 || s[0] == c {
        0
    } else {
        1 + first_index(s.skip(1), c)
    }
}

/// The first index of a character is the one with no such character before it.
pub proof fn lemma_first_index(s: Seq<char>, c: char, i: int)
    requires
        0 <= i <= s.len(),
        forall|j: int| 0 <= j < i ==> s[j] != c,
        i < s.len() ==> s[i] == c,
    ensures
        first_index(s, c) == i,
    decreases s.len(),
{
    if s.len() > 0 && s[0] != c {
        lemma_first_index(s.skip(1), c, i - 1);
    }
}

/// `s` without the leading occurrences of `c`.
pub open spec fn trim_front(s: Seq<char>, c: char) -> Seq<char>
    decreases s.len(),
{
    if s.len() > 0 && s[0] == c {
        trim_front(s.skip(1), c)
    } else {
        s
    }
}

/// `s` without the trailing occurrences of `c`.
pub open spec fn trim_back(s: Seq<char>, c: char) -> Seq<char>
    decreases s.len(),
{
    if s.len() > 0 && s.last() == c {
        trim_back(s.drop_last(), c)
    } else {
        s
    }
}

/// `str::strip_prefix` for a string.
pub fn strip_prefix<'a>(s: &'a str, p: &str) -> (r: Option<&'a str>)
    ensures
        match r {
            Some(t) => behind(s@, p@) == Some(t@),
            None => behind(s@, p@) is None,
        },
{
    let sv = chars_of(s);
    let pv = chars_of(p);
    if pv.len() > sv.len() {
        return None;
    }
    let mut i: usize = 0;
    while i < pv.len()
        invariant
            i <= pv@.len() <= sv@.len(),
            sv@ == s@,
            pv@ == p@,
            forall|j: int| 0 <= j < i ==> sv@[j] == pv@[j],
        decreases pv@.len() - i,
    {
        if sv[i] != pv[i] {
            assert(s@.subrange(0, p@.len() as int)[i as int] != p@[i as int]);
            return None;
        }
        i = i + 1;
    }
    assert(p@ =~= s@.subrange(0, p@.len() as int));
    let t = s.substring_char(pv.len(), sv.len());
    assert(t@ =~= s@.skip(p@.len() as int));
    Some(t)
}

/// `str::strip_suffix` for a string.
pub fn strip_suffix<'a>(s: &'a str, q: &str) -> (r: Option<&'a str>)
    ensures
        match r {
            Some(t) => in_front(s@, q@) == Some(t@),
            None => in_front(s@, q@) is None,
        },
{
    let sv = chars_of(s);
    let qv = chars_of(q);
    if qv.len() > sv.len() {
        return None;
    }
    let off: usize = sv.len() - qv.len();
    let mut i: usize = 0;
    while i < qv.len()
        invariant
            i <= qv@.len() <= sv@.len(),
            off + qv.len() == sv.len(),
            sv@ == s@,
            qv@ == q@,
            forall|j: int| 0 <= j < i ==> sv@[off + j] == qv@[j],
        decreases qv@.len() - i,
    {
        if sv[off + i] != qv[i] {
            assert(s@.subrange(off as int, s@.len() as int)[i as int] != q@[i as int]);
            return None;
        }
        i = i + 1;
    }
    assert(q@ =~= s@.subrange(off as int, s@.len() as int));
    let t = s.substring_char(0, off);
    assert(t@ =~= s@.take(off as int));
    Some(t)
}

/// The part of `s` in front of the first `c`, or all of it.
pub fn before<'a>(s: &'a str, c: char) -> (r: &'a str)
    ensures
        r@ == s@.take(first_index(s@, c)),
{
    let v = chars_of(s);
    let mut i: usize = 0;
    while i < v.len() && v[i] != c
        invariant
            i <= v@.len(),
            v@ == s@,
            forall|j: int| 0 <= j < i ==> v@[j] != c,
        decreases v@.len() - i,
    {
        i = i + 1;
    }
    proof {
        lemma_first_index(s@, c, i as int);
    }
    let t = s.substring_char(0, i);
    assert(t@ =~= s@.take(i as int));
    t
}

/// `str::trim_matches` for a character: cuts `c` off both ends.
pub fn trim_char<'a>(s: &'a str, c: char) -> (r: &'a str)
    ensures
        r@ == trim_back(trim_front(s@, c), c),
{
    let v = chars_of(s);
    let mut i: usize = 0;
    assert(s@.skip(0) =~= s@);
    while i < v.len() && v[i] == c
        invariant
            i <= v@.len(),
            v@ == s@,
            trim_front(s@, c) == trim_front(s@.skip(i as int), c),
        decreases v@.len() - i,
    {
        assert(s@.skip(i as int).skip(1) =~= s@.skip(i + 1));
        i = i + 1;
    }
    let ghost t = s@.skip(i as int);
    assert(trim_front(s@, c) == t);
    let mut n: usize = v.len();
    assert(t =~= s@.subrange(i as int, n as int));
    while n > i && v[n - 1] == c
        invariant
            i <= n <= v@.len(),
            v@ == s@,
            trim_back(t, c) == trim_back(s@.subrange(i as int, n as int), c),
        decreases n,
    {
        assert(s@.subrange(i as int, n as int).drop_last() =~= s@.subrange(i as int, n - 1));
        n = n - 1;
    }
    s.substring_char(i, n)
}

/// `s` without the white space in front.
pub open spec fn trim_start_ws(s: Seq<char>) -> Seq<char>
    decreases s.len(),
{
    if s.len() > 0 && white_space(s[0]) {
        trim_start_ws(s.skip(1))
    } else {
        s
    }
}

/// `s` without the white space at its end.
pub open spec fn trim_end_ws(s: Seq<char>) -> Seq<char>
    decreases s.len(),
{
    if s.len() > 0 && white_space(s.last()) {
        trim_end_ws(s.drop_last())
    } else {
        s
    }
}

/// `s` without the white space at both ends.
pub open spec fn trimmed(s: Seq<char>) -> Seq<char> {
    trim_end_ws(trim_start_ws(s))
}

/// `str::trim_end`.
pub fn trim_end<'a>(s: &'a str) -> (r: &'a str)
    ensures
        r@ == trim_end_ws(s@),
{
    let v = chars_of(s);
    let mut n: usize = v.len();
    assert(s@.take(n as int) =~= s@);
    while n > 0 && is_whitespace(v[n - 1])
        invariant
            n <= v@.len(),
            v@ == s@,
            trim_end_ws(s@) == trim_end_ws(s@.take(n as int)),
        decreases n,
    {
        assert(s@.take(n as int).drop_last() =~= s@.take(n - 1));
        n = n - 1;
    }
    let t = s.substring_char(0, n);
    assert(t@ =~= s@.take(n as int));
    t
}

/// `str::trim`.
pub fn trim<'a>(s: &'a str) -> (r: &'a str)
    ensures
        r@ == trimmed(s@),
{
    let v = chars_of(s);
    let mut i: usize = 0;
    assert(s@.skip(0) =~= s@);
    while i < v.len() && is_whitespace(v[i])
        invariant
            i <= v@.len(),
            v@ == s@,
            trim_start_ws(s@) == trim_start_ws(s@.skip(i as int)),
        decreases v@.len() - i,
    {
        assert(s@.skip(i as int).skip(1) =~= s@.skip(i + 1));
        i = i + 1;
    }
    let t = s.substring_char(i, v.len());
    assert(t@ =~= s@.skip(i as int));
    trim_end(t)
}

/// A line without the carriage return that ends it.
pub open spec fn without_cr(s: Seq<char>) -> Seq<char> {
    if s.len() > 0 && s.last() == '\r' {
        s.drop_last()
    } else {
        s
    }
}

/// The lines of a text. A line ends in a line feed, or a carriage return and a line feed;
/// what is behind the last line feed is a line if it is not empty.
pub open spec fn lines(s: Seq<char>) -> Seq<Seq<char>>
    decreases s.len(),
{
    if s.len() == 0 {
        Seq::empty()
    } else {
        let i = first_index(s, '\n');
        if i < s.len() && 0 <= i {
            seq![without_cr(s.take(i))] + lines(s.skip(i + 1))
        } else {
            seq![s]
        }
    }
}

/// The first index of a character lies within the text, or at its end.
pub proof fn lemma_first_index_bounds(s: Seq<char>, c: char)
    ensures
        0 <= first_index(s, c) <= s.len(),
        first_index(s, c) < s.len() ==> s[first_index(s, c)] == c,
        forall|j: int| 0 <= j < first_index(s, c) ==> #[trigger] s[j] != c,
    decreases s.len(),
{
    if s.len() > 0 && s[0] != c {
        let t = s.skip(1);
        lemma_first_index_bounds(t, c);
        assert forall|j: int| 0 <= j < first_index(s, c) implies #[trigger] s[j] != c by {
            if j > 0 {
                assert(s[j] == t[j - 1]);
            }
        }
    }
}

/// `str::lines`, as strings.
pub fn lines_of(text: &str) -> (r: Vec<String>)
    ensures
        r.deep_view() == lines(text@),
{
    let v = chars_of(text);
    let mut out: Vec<String> = Vec::new();
    let mut from: usize = 0;
    assert(text@.skip(0) =~= text@);
    assert(out.deep_view() + lines(text@) =~= lines(text@));
    while from < v.len()
        invariant
            from <= v@.len(),
            v@ == text@,
            out.deep_view() + lines(text@.skip(from as int)) == lines(text@),
        decreases v@.len() - from,
    {
        let ghost rest = text@.skip(from as int);
        let mut i: usize = from;
        while i < v.len() && v[i] != '\n'
            invariant
                from <= i <= v@.len(),
                v@ == text@,
                forall|j: int| from <= j < i ==> #[trigger] v@[j] != '\n',
            decreases v@.len() - i,
        {
            i = i + 1;
        }
        proof {
            lemma_first_index(rest, '\n', i - from);
        }
        let ghost before = out.deep_view();
        if i < v.len() {
            let end: usize = if i > from && v[i - 1] == '\r' { i - 1 } else { i };
            let line = text_of(&v, from, end);
            assert(rest.take(i - from) =~= v@.subrange(from as int, i as int));
            assert(line@ =~= without_cr(rest.take(i - from)));
            push_deep(&mut out, line);
            assert(rest.skip(i - from + 1) =~= text@.skip(i + 1));
            assert(out.deep_view() + lines(text@.skip(i + 1)) =~= before + (seq![line@] + lines(
                text@.skip(i + 1),
            )));
            from = i + 1;
        } else {
            let line = text_of(&v, from, i);
            assert(line@ =~= rest);
            push_deep(&mut out, line);
            assert(text@.skip(i as int) =~= Seq::<char>::empty());
            assert(out.deep_view() + lines(text@.skip(i as int)) =~= before + seq![line@]);
            from = i;
        }
    }
    assert(out.deep_view() + lines(text@.skip(from as int)) =~= out.deep_view());
    out
}

/// Texts one after the other, with `sep` between two.
pub open spec fn join(parts: Seq<Seq<char>>, sep: Seq<char>) -> Seq<char>
    decreases parts.len(),
{
    if parts.len() == 0 {
        Seq::empty()
    } else if parts.len() == 1 {
        parts[0]
    } else {
        join(parts.drop_last(), sep) + sep + parts.last()
    }
}

/// `[String]::join`.
pub fn join_of(parts: &Vec<String>, sep: &str) -> (r: String)
    ensures
        r@ == join(parts.deep_view(), sep@),
{
    let ghost all = parts.deep_view();
    let mut s = String::new();
    let mut i: usize = 0;
    assert(s@ =~= join(all.take(0), sep@));
    while i < parts.len()
        invariant
            i <= parts@.len(),
            all == parts.deep_view(),
            s@ == join(all.take(i as int), sep@),
        decreases parts@.len() - i,
    {
        proof {
            assert(all.take(i + 1).drop_last() =~= all.take(i as int));
            assert(all.take(i + 1).last() == parts@[i as int]@);
        }
        if i > 0 {
            s.append(sep);
        }
        s.append(parts[i].as_str());
        if i == 0 {
            assert(s@ =~= parts@[0]@);
        }
        i = i + 1;
    }
    assert(all.take(i as int) =~= all);
    s
}

/// Whether `sub` occurs in `s`.
pub open spec fn occurs(s: Seq<char>, sub: Seq<char>) -> bool {
    exists|i: int| 0 <= i <= s.len() - sub.len() && #[trigger] s.subrange(i, i + sub.len()) == sub
}

/// `str::contains` for a string.
pub fn contains(s: &str, sub: &str) -> (r: bool)
    ensures
        r == occurs(s@, sub@),
{
    let sv = chars_of(s);
    let pv = chars_of(sub);
    if pv.len() > sv.len() {
        return false;
    }
    let last: usize = sv.len() - pv.len();
    let mut i: usize = 0;
    while i <= last
        invariant
            i <= last + 1,
            last + pv.len() == sv.len(),
            sv@ == s@,
            pv@ == sub@,
            forall|k: int| 0 <= k < i ==> #[trigger] s@.subrange(k, k + sub@.len()) != sub@,
        decreases last + 1 - i,
    {
        let mut j: usize = 0;
        while j < pv.len() && sv[i + j] == pv[j]
            invariant
                j <= pv@.len(),
                i <= last,
                last + pv.len() == sv.len(),
                sv@ == s@,
                pv@ == sub@,
                forall|k: int| 0 <= k < j ==> sv@[i + k] == pv@[k],
            decreases pv@.len() - j,
        {
            j = j + 1;
        }
        if j == pv.len() {
            assert(s@.subrange(i as int, i + sub@.len()) =~= sub@);
            return true;
        }
        assert(s@.subrange(i as int, i + sub@.len())[j as int] != sub@[j as int]);
        if i == last {
            return false;
        }
        i = i + 1;
    }
    false
}

} // verus!
