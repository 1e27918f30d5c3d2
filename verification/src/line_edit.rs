//! Editing one line of text with a cursor. The cursor is a byte offset into the text, as
//! the terminal's line is sent over the wire; it always stands between two characters.

use crate::text::{byte_len, cat2, chars_of, is_whitespace, push_char, text_of, white_space};
use vstd::prelude::*;
use vstd::string::*;
use vstd::utf8::*;

verus! {

/// The number of bytes that a character takes.
pub open spec fn width(c: char) -> nat {
    encode_scalar(c as u32).len()
}

/// The number of bytes that a text takes.
pub open spec fn bytes(s: Seq<char>) -> nat {
    encode_utf8(s).len()
}

/// Every character takes one to four bytes.
pub proof fn lemma_width(c: char)
    ensures
        1 <= width(c) <= 4,
{
}

/// The bytes of a text are those of its parts.
pub proof fn lemma_bytes_add(a: Seq<char>, b: Seq<char>)
    ensures
        bytes(a + b) == bytes(a) + bytes(b),
    decreases a.len(),
{
    if a.len() == 0 {
        assert(a + b =~= b);
    } else {
        lemma_bytes_add(a.drop_first(), b);
        assert((a + b).drop_first() =~= a.drop_first() + b);
    }
}

/// One more character takes its width more.
pub proof fn lemma_bytes_push(a: Seq<char>, c: char)
    ensures
        bytes(a.push(c)) == bytes(a) + width(c),
{
    lemma_bytes_add(a, seq![c]);
    assert(a + seq![c] =~= a.push(c));
    reveal_with_fuel(encode_utf8, 2);
    assert(seq![c].drop_first() =~= Seq::<char>::empty());
}

/// How many characters the first `b` bytes of `s` make, if they make whole ones.
pub open spec fn split_index(s: Seq<char>, b: int) -> Option<int>
    decreases s.len(),
{
    if b == 0 {
        Some(0int)
    } else if b < 0 || s.len() == 0 {
        None
    } else {
        match split_index(s.skip(1), b - width(s[0])) {
            Some(k) => Some(k + 1),
            None => None,
        }
    }
}

/// The offset behind `k` characters splits the text there.
pub proof fn lemma_split_at(s: Seq<char>, k: int)
    requires
        0 <= k <= s.len(),
    ensures
        split_index(s, bytes(s.take(k)) as int) == Some(k),
    decreases s.len(),
{
    if k == 0 {
        assert(s.take(0) =~= Seq::<char>::empty());
    } else {
        lemma_width(s[0]);
        assert(s.take(k).drop_first() =~= s.skip(1).take(k - 1));
        lemma_split_at(s.skip(1), k - 1);
    }
}

/// Where an offset splits the text, the characters in front take that many bytes.
pub proof fn lemma_split_bytes(s: Seq<char>, b: int)
    ensures
        split_index(s, b) matches Some(k) ==> 0 <= k <= s.len() && bytes(s.take(k)) == b,
    decreases s.len(),
{
    if b == 0 {
        assert(s.take(0) =~= Seq::<char>::empty());
    } else if b > 0 && s.len() > 0 {
        lemma_split_bytes(s.skip(1), b - width(s[0]));
        if let Some(k) = split_index(s.skip(1), b - width(s[0])) {
            assert(s.take(k + 1).drop_first() =~= s.skip(1).take(k));
        }
    }
}

/// A line and the cursor in it, as the text in front of the cursor and behind it.
#[verifier::ext_equal]
pub struct LineV {
    pub left: Seq<char>,
    pub right: Seq<char>,
}

/// The cursor stands between two characters of the line.
pub open spec fn cursor_ok(text: Seq<char>, cursor: usize) -> bool {
    split_index(text, cursor as int) is Some
}

/// The line on both sides of the cursor.
pub open spec fn line_at(text: Seq<char>, cursor: usize) -> LineV {
    let k = split_index(text, cursor as int)->0;
    LineV { left: text.take(k), right: text.skip(k) }
}

/// The line as text and cursor.
pub open spec fn is_line(text: Seq<char>, cursor: usize, l: LineV) -> bool {
    text == l.left + l.right && cursor as nat == bytes(l.left)
}

/// Text and cursor determine the two sides, and are determined by them.
pub proof fn lemma_line(text: Seq<char>, cursor: usize, l: LineV)
    ensures
        is_line(text, cursor, l) ==> cursor_ok(text, cursor) && line_at(text, cursor) == l,
        cursor_ok(text, cursor) && line_at(text, cursor) == l ==> is_line(text, cursor, l),
{
    if is_line(text, cursor, l) {
        assert(text.take(l.left.len() as int) =~= l.left);
        assert(text.skip(l.left.len() as int) =~= l.right);
        lemma_split_at(text, l.left.len() as int);
    }
    if cursor_ok(text, cursor) && line_at(text, cursor) == l {
        lemma_split_bytes(text, cursor as int);
        assert(text =~= l.left + l.right);
    }
}

// ---- what the keys do --------------------------------------------------------------

/// A character is typed.
pub open spec fn typed(l: LineV, c: char) -> LineV {
    LineV { left: l.left.push(c), right: l.right }
}

/// The character in front of the cursor is erased.
pub open spec fn erased(l: LineV) -> LineV {
    if l.left.len() == 0 {
        l
    } else {
        LineV { left: l.left.drop_last(), right: l.right }
    }
}

/// The cursor moves one character to the left.
pub open spec fn moved_left(l: LineV) -> LineV {
    if l.left.len() == 0 {
        l
    } else {
        LineV { left: l.left.drop_last(), right: seq![l.left.last()] + l.right }
    }
}

/// The cursor moves one character to the right.
pub open spec fn moved_right(l: LineV) -> LineV {
    if l.right.len() == 0 {
        l
    } else {
        LineV { left: l.left.push(l.right[0]), right: l.right.skip(1) }
    }
}

/// The cursor moves to the start.
pub open spec fn moved_home(l: LineV) -> LineV {
    LineV { left: Seq::empty(), right: l.left + l.right }
}

/// The cursor moves to the end.
pub open spec fn moved_end(l: LineV) -> LineV {
    LineV { left: l.left + l.right, right: Seq::empty() }
}

/// Everything in front of the cursor is deleted.
pub open spec fn killed_to_start(l: LineV) -> LineV {
    LineV { left: Seq::empty(), right: l.right }
}

/// `s` without the white space at its end.
pub open spec fn without_spaces(s: Seq<char>) -> Seq<char>
    decreases s.len(),
{
    if s.len() > 0 && white_space(s.last()) {
        without_spaces(s.drop_last())
    } else {
        s
    }
}

/// `s` without the word at its end.
pub open spec fn without_word(s: Seq<char>) -> Seq<char>
    decreases s.len(),
{
    if s.len() > 0 && !white_space(s.last()) {
        without_word(s.drop_last())
    } else {
        s
    }
}

/// The word in front of the cursor is deleted, with the white space behind it.
pub open spec fn killed_word(l: LineV) -> LineV {
    LineV { left: without_word(without_spaces(l.left)), right: l.right }
}

/// The text from the character `start` to the cursor is replaced.
pub open spec fn replaced(l: LineV, start: int, by: Seq<char>) -> LineV {
    LineV { left: l.left.take(start) + by, right: l.right }
}

// ---- the operations ----------------------------------------------------------------

/// How many characters stand in front of the byte offset `b`, if it stands between two.
pub fn index_at(v: &Vec<char>, b: usize) -> (r: Option<usize>)
    ensures
        match r {
            Some(k) => split_index(v@, b as int) == Some(k as int) && k <= v@.len(),
            None => split_index(v@, b as int) is None,
        },
{
    let mut rest: usize = b;
    let mut i: usize = 0;
    assert(v@.skip(0) =~= v@);
    while i < v.len() && rest > 0
        invariant
            i <= v@.len(),
            match split_index(v@.skip(i as int), rest as int) {
                Some(k) => split_index(v@, b as int) == Some(k + i),
                None => split_index(v@, b as int) is None,
            },
        decreases v@.len() - i,
    {
        let w: usize = char_width(v[i]);
        proof {
            reveal_with_fuel(split_index, 2);
            assert(v@.skip(i as int).skip(1) =~= v@.skip(i + 1));
        }
        if w > rest {
            return None;
        }
        rest = rest - w;
        i = i + 1;
    }
    if rest == 0 {
        Some(i)
    } else {
        None
    }
}

/// `char::len_utf8`: the number of bytes that a character takes.
pub fn char_width(c: char) -> (r: usize)
    ensures
        r == width(c),
{
    let n: u32 = c as u32;
    if n <= 0x7f {
        1
    } else if n <= 0x7ff {
        2
    } else if n <= 0xffff {
        3
    } else {
        4
    }
}

/// The two sides of the cursor as strings.
fn sides(text: &str, cursor: usize) -> (r: (String, String))
    requires
        cursor_ok(text@, cursor),
    ensures
        r.0@ == line_at(text@, cursor).left,
        r.1@ == line_at(text@, cursor).right,
{
    let v = chars_of(text);
    let k = index_at(&v, cursor).unwrap();
    let left = text_of(&v, 0, k);
    let right = text_of(&v, k, v.len());
    assert(left@ =~= text@.take(k as int));
    assert(right@ =~= text@.skip(k as int));
    (left, right)
}

/// A line as text and cursor, out of its two sides.
fn joined(left: String, right: &str) -> (r: (String, usize))
    ensures
        is_line(r.0@, r.1, (LineV { left: left@, right: right@ })),
{
    let cursor = byte_len(left.as_str());
    (cat2(left.as_str(), right), cursor)
}

/// The line is `l`, and the cursor stands where it should.
pub open spec fn now_line(r: (String, usize), l: LineV) -> bool {
    cursor_ok(r.0@, r.1) && line_at(r.0@, r.1) == l
}

pub fn insert(text: &str, cursor: usize, c: char) -> (r: (String, usize))
    requires
        cursor_ok(text@, cursor),
    ensures
        now_line(r, typed(line_at(text@, cursor), c)),
{
    let (mut left, right) = sides(text, cursor);
    push_char(&mut left, c);
    let r = joined(left, right.as_str());
    proof {
        lemma_line(r.0@, r.1, typed(line_at(text@, cursor), c));
    }
    r
}

/// `text` without its last character.
fn drop_last(text: &str) -> (r: String)
    requires
        text@.len() > 0,
    ensures
        r@ == text@.drop_last(),
{
    let v = chars_of(text);
    let r = text_of(&v, 0, v.len() - 1);
    assert(r@ =~= text@.drop_last());
    r
}

pub fn erase(text: &str, cursor: usize) -> (r: (String, usize))
    requires
        cursor_ok(text@, cursor),
    ensures
        now_line(r, erased(line_at(text@, cursor))),
{
    let (mut left, right) = sides(text, cursor);
    if left.as_str().unicode_len() > 0 {
        left = drop_last(left.as_str());
    }
    let r = joined(left, right.as_str());
    proof {
        lemma_line(r.0@, r.1, erased(line_at(text@, cursor)));
    }
    r
}

/// The width of the character in front of the cursor, 0 at the start.
pub fn prev_char(s: &str, cur: usize) -> (r: usize)
    requires
        cursor_ok(s@, cur),
    ensures
        ({
            let l = line_at(s@, cur).left;
            r == if l.len() == 0 {
                0
            } else {
                width(l.last())
            }
        }),
{
    let (left, _) = sides(s, cur);
    let v = chars_of(left.as_str());
    if v.len() == 0 {
        0
    } else {
        char_width(v[v.len() - 1])
    }
}

/// The width of the character behind the cursor, 0 at the end.
pub fn next_char(s: &str, cur: usize) -> (r: usize)
    requires
        cursor_ok(s@, cur),
    ensures
        ({
            let t = line_at(s@, cur).right;
            r == if t.len() == 0 {
                0
            } else {
                width(t[0])
            }
        }),
{
    let (_, right) = sides(s, cur);
    let v = chars_of(right.as_str());
    if v.len() == 0 {
        0
    } else {
        char_width(v[0])
    }
}

pub fn left_of(text: &str, cursor: usize) -> (r: usize)
    requires
        cursor_ok(text@, cursor),
    ensures
        cursor_ok(text@, r),
        line_at(text@, r) == moved_left(line_at(text@, cursor)),
{
    let w = prev_char(text, cursor);
    proof {
        let l = line_at(text@, cursor);
        lemma_line(text@, cursor, l);
        if l.left.len() > 0 {
            let m = moved_left(l);
            lemma_bytes_push(m.left, l.left.last());
            assert(m.left.push(l.left.last()) =~= l.left);
            assert(m.left + m.right =~= l.left + l.right);
            lemma_line(text@, (cursor - w) as usize, m);
        }
    }
    cursor - w
}

pub fn right_of(text: &str, cursor: usize) -> (r: usize)
    requires
        cursor_ok(text@, cursor),
    ensures
        cursor_ok(text@, r),
        line_at(text@, r) == moved_right(line_at(text@, cursor)),
{
    let w = next_char(text, cursor);
    let n = byte_len(text);
    proof {
        let l = line_at(text@, cursor);
        lemma_line(text@, cursor, l);
        lemma_bytes_add(l.left, l.right);
        if l.right.len() > 0 {
            let m = moved_right(l);
            lemma_bytes_push(l.left, l.right[0]);
            assert(m.left + m.right =~= l.left + l.right);
            lemma_bytes_add(m.left, m.right);
            lemma_line(text@, (cursor + w) as usize, m);
        }
        assert(cursor + w <= n);
    }
    cursor + w
}

pub fn end_of(text: &str) -> (r: usize)
    ensures
        cursor_ok(text@, r),
        line_at(text@, r) == (LineV { left: text@, right: Seq::empty() }),
{
    let n = byte_len(text);
    proof {
        let m = LineV { left: text@, right: Seq::empty() };
        assert(m.left + m.right =~= text@);
        lemma_line(text@, n, m);
    }
    n
}

/// The start of every text is between two characters.
pub proof fn lemma_home(text: Seq<char>)
    ensures
        cursor_ok(text, 0),
        line_at(text, 0) == (LineV { left: Seq::empty(), right: text }),
{
    assert(text.take(0) =~= Seq::<char>::empty());
    assert(text.skip(0) =~= text);
}

pub fn kill_to_start(text: &str, cursor: usize) -> (r: (String, usize))
    requires
        cursor_ok(text@, cursor),
    ensures
        now_line(r, killed_to_start(line_at(text@, cursor))),
        r.1 == 0,
{
    let (_, right) = sides(text, cursor);
    proof {
        lemma_home(right@);
    }
    (right, 0)
}

pub fn kill_word(text: &str, cursor: usize) -> (r: (String, usize))
    requires
        cursor_ok(text@, cursor),
    ensures
        now_line(r, killed_word(line_at(text@, cursor))),
{
    let (left, right) = sides(text, cursor);
    let v = chars_of(left.as_str());
    let mut n: usize = v.len();
    let ghost goal = without_word(without_spaces(left@));
    assert(v@.take(n as int) =~= left@);
    while n > 0 && is_whitespace(v[n - 1])
        invariant
            n <= v@.len(),
            without_word(without_spaces(v@.take(n as int))) == goal,
        decreases n,
    {
        assert(v@.take(n as int).drop_last() =~= v@.take(n - 1));
        n = n - 1;
    }
    assert(without_word(v@.take(n as int)) == goal);
    while n > 0 && !is_whitespace(v[n - 1])
        invariant
            n <= v@.len(),
            without_word(v@.take(n as int)) == goal,
        decreases n,
    {
        assert(v@.take(n as int).drop_last() =~= v@.take(n - 1));
        n = n - 1;
    }
    let kept = text_of(&v, 0, n);
    assert(kept@ =~= goal);
    let r = joined(kept, right.as_str());
    proof {
        lemma_line(r.0@, r.1, killed_word(line_at(text@, cursor)));
    }
    r
}

/// Replaces the text from the character `start` to the cursor.
pub fn replace(text: &str, cursor: usize, start: usize, by: &str) -> (r: (String, usize))
    requires
        cursor_ok(text@, cursor),
        start <= line_at(text@, cursor).left.len(),
    ensures
        now_line(r, replaced(line_at(text@, cursor), start as int, by@)),
{
    let (left, right) = sides(text, cursor);
    let v = chars_of(left.as_str());
    let head = text_of(&v, 0, start);
    assert(head@ =~= left@.take(start as int));
    let r = joined(cat2(head.as_str(), by), right.as_str());
    proof {
        lemma_line(r.0@, r.1, replaced(line_at(text@, cursor), start as int, by@));
    }
    r
}

// ---- laws --------------------------------------------------------------------------

/// Erasing takes back what was typed.
pub proof fn law_erase_undoes_typing(l: LineV, c: char)
    ensures
        erased(typed(l, c)) == l,
{
    assert(typed(l, c).left.drop_last() =~= l.left);
}

/// Moving right takes back a move to the left, and the text stays what it is.
pub proof fn law_right_undoes_left(l: LineV)
    requires
        l.left.len() > 0,
    ensures
        moved_right(moved_left(l)) == l,
        moved_left(l).left + moved_left(l).right == l.left + l.right,
{
    let m = moved_left(l);
    assert(m.left.push(m.right[0]) =~= l.left);
    assert(m.right.skip(1) =~= l.right);
    assert(m.left + m.right =~= l.left + l.right);
}

/// Deleting a word deletes only in front of the cursor, and leaves nothing or text that
/// ends in white space.
pub proof fn law_kill_word_stops_at_space(l: LineV)
    ensures
        ({
            let k = killed_word(l);
            &&& k.right == l.right
            &&& k.left.is_prefix_of(l.left)
            &&& k.left.len() > 0 ==> white_space(k.left.last())
        }),
{
    lemma_without_spaces(l.left);
    lemma_without_word(without_spaces(l.left));
    let a = without_spaces(l.left);
    let k = without_word(a);
    assert(k =~= l.left.subrange(0, k.len() as int));
}

proof fn lemma_without_spaces(s: Seq<char>)
    ensures
        without_spaces(s).len() <= s.len(),
        without_spaces(s) == s.take(without_spaces(s).len() as int),
    decreases s.len(),
{
    if s.len() > 0 && white_space(s.last()) {
        lemma_without_spaces(s.drop_last());
        assert(without_spaces(s) =~= s.take(without_spaces(s).len() as int));
    } else {
        assert(s =~= s.take(s.len() as int));
    }
}

proof fn lemma_without_word(s: Seq<char>)
    ensures
        without_word(s).len() <= s.len(),
        without_word(s) == s.take(without_word(s).len() as int),
        without_word(s).len() > 0 ==> white_space(without_word(s).last()),
    decreases s.len(),
{
    if s.len() > 0 && !white_space(s.last()) {
        lemma_without_word(s.drop_last());
        assert(without_word(s) =~= s.take(without_word(s).len() as int));
    } else {
        assert(s =~= s.take(s.len() as int));
    }
}

} // verus!
