//! Character-level model of a text and its line/column addressing.
//!
//! A text is modelled as the sequence of its Unicode scalar values. Byte
//! offsets are the offsets of the UTF-8 encoding of that sequence.
use vstd::prelude::*;
use vstd::utf8::{char_is_scalar, encode_scalar, encode_utf8};

verus! {

/// Number of bytes that UTF-8 uses for `c`.
pub open spec fn utf8_len(c: char) -> nat {
    if (c as u32) < 0x80 {
        1
    } else if (c as u32) < 0x800 {
        2
    } else if (c as u32) < 0x10000 {
        3
    } else {
        4
    }
}

/// Length in bytes of the UTF-8 encoding of `s`.
pub open spec fn byte_len(s: Seq<char>) -> nat
    decreases s.len(),
{
    if s.len() == 0 {
        0
    } else {
        byte_len(s.drop_last()) + utf8_len(s.last())
    }
}

/// Byte offset at which the character of index `k` starts.
pub open spec fn byte_offset(s: Seq<char>, k: int) -> nat {
    byte_len(s.take(k))
}

/// `p` is a byte offset that falls between two characters of `s` (or at an end).
pub open spec fn is_boundary(s: Seq<char>, p: int) -> bool {
    exists|k: int| 0 <= k <= s.len() && byte_offset(s, k) == p
}

/// The character index that the boundary `p` stands at.
pub open spec fn char_index(s: Seq<char>, p: int) -> int {
    choose|k: int| 0 <= k <= s.len() && byte_offset(s, k) == p
}

/// Number of line feeds among the first `k` characters: the line of position `k`.
pub open spec fn line_of(s: Seq<char>, k: int) -> nat
    decreases k,
{
    if k <= 0 {
        0
    } else {
        line_of(s, k - 1) + if s[k - 1] == '\n' {
            1nat
        } else {
            0nat
        }
    }
}

/// Index of the first character of the line that holds position `k`.
pub open spec fn line_start(s: Seq<char>, k: int) -> int
    decreases k,
{
    if k <= 0 {
        0
    } else if s[k - 1] == '\n' {
        k
    } else {
        line_start(s, k - 1)
    }
}

/// Column of position `k`: characters between the start of its line and `k`.
pub open spec fn col_of(s: Seq<char>, k: int) -> nat {
    (k - line_start(s, k)) as nat
}

/// Line and column of the byte offset `p` of `s`.
pub open spec fn line_col_of(s: Seq<char>, p: int) -> (nat, nat) {
    let k = char_index(s, p);
    (line_of(s, k), col_of(s, k))
}

/// Index of the first character of line `l` (a position that starts a line and
/// lies on line `l`).
pub open spec fn start_of_line(s: Seq<char>, l: int) -> int {
    choose|j: int| 0 <= j <= s.len() && line_start(s, j) == j && line_of(s, j) == l
}

/// Byte offset of the position at column `c` of line `l`.
pub open spec fn offset_of_line_col(s: Seq<char>, l: int, c: int) -> nat {
    byte_offset(s, start_of_line(s, l) + c)
}

/// Index of the line feed that ends the line holding position `k`, or the
/// length of `s` on the last line.
pub open spec fn line_end(s: Seq<char>, k: int) -> int
    decreases s.len() - k,
{
    if k >= s.len() {
        s.len() as int
    } else if s[k] == '\n' {
        k
    } else {
        line_end(s, k + 1)
    }
}

pub proof fn lemma_line_end_bounds(s: Seq<char>, k: int)
    requires
        0 <= k <= s.len(),
    ensures
        k <= line_end(s, k) <= s.len(),
        line_end(s, k) < s.len() ==> s[line_end(s, k)] == '\n',
        forall|j: int| k <= j <= line_end(s, k) ==> line_of(s, j) == line_of(s, k),
        forall|j: int|
            k <= j <= line_end(s, k) ==> line_end(s, j) == line_end(s, k),
    decreases s.len() - k,
{
    if k < s.len() && s[k] != '\n' {
        lemma_line_end_bounds(s, k + 1);
        assert forall|j: int| k <= j <= line_end(s, k) implies line_of(s, j) == line_of(s, k) by {
            if j > k {
                assert(line_of(s, k + 1) == line_of(s, k));
            }
        }
    }
}

/// From the start of a line, the line ends where it ends from any position on it.
pub proof fn lemma_line_end_from_start(s: Seq<char>, k: int)
    requires
        0 <= k <= s.len(),
    ensures
        line_end(s, line_start(s, k)) == line_end(s, k),
        k <= line_end(s, k),
    decreases k,
{
    lemma_line_end_bounds(s, k);
    if k > 0 && s[k - 1] != '\n' {
        lemma_line_end_from_start(s, k - 1);
    }
}

/// Line `l` exists and has at least `c` characters.
pub open spec fn line_col_valid(s: Seq<char>, l: int, c: int) -> bool {
    &&& 0 <= l <= last_line(s)
    &&& 0 <= c
    &&& start_of_line(s, l) + c <= line_end(s, start_of_line(s, l))
}

/// Index of the last line of `s` (number of line feeds in it).
pub open spec fn last_line(s: Seq<char>) -> nat {
    line_of(s, s.len() as int)
}

pub proof fn lemma_byte_offset_step(s: Seq<char>, k: int)
    requires
        0 < k <= s.len(),
    ensures
        byte_offset(s, k) == byte_offset(s, k - 1) + utf8_len(s[k - 1]),
{
    assert(s.take(k).drop_last() =~= s.take(k - 1));
    assert(s.take(k).last() == s[k - 1]);
}

pub proof fn lemma_byte_offset_zero(s: Seq<char>)
    ensures
        byte_offset(s, 0) == 0,
{
    assert(s.take(0).len() == 0);
}

pub proof fn lemma_byte_offset_mono(s: Seq<char>, k1: int, k2: int)
    requires
        0 <= k1 < k2 <= s.len(),
    ensures
        byte_offset(s, k1) < byte_offset(s, k2),
    decreases k2 - k1,
{
    lemma_byte_offset_step(s, k2);
    if k1 < k2 - 1 {
        lemma_byte_offset_mono(s, k1, k2 - 1);
    }
}

/// The character index of a boundary is the only index with that byte offset.
pub proof fn lemma_char_index(s: Seq<char>, p: int, k: int)
    requires
        0 <= k <= s.len(),
        byte_offset(s, k) == p,
    ensures
        is_boundary(s, p),
        char_index(s, p) == k,
{
    let j = char_index(s, p);
    if j < k {
        lemma_byte_offset_mono(s, j, k);
    } else if k < j {
        lemma_byte_offset_mono(s, k, j);
    }
}

pub proof fn lemma_line_start_le(s: Seq<char>, k: int)
    requires
        0 <= k,
    ensures
        0 <= line_start(s, k) <= k,
        line_start(s, line_start(s, k)) == line_start(s, k),
        line_start(s, k) > 0 ==> s[line_start(s, k) - 1] == '\n',
    decreases k,
{
    if k > 0 && s[k - 1] != '\n' {
        lemma_line_start_le(s, k - 1);
    }
}

pub proof fn lemma_line_of_mono(s: Seq<char>, j: int, k: int)
    requires
        0 <= j <= k,
    ensures
        line_of(s, j) <= line_of(s, k),
    decreases k - j,
{
    if j < k {
        lemma_line_of_mono(s, j, k - 1);
    }
}

/// No line feed lies between the start of a line and a position on it.
pub proof fn lemma_same_line(s: Seq<char>, k: int)
    requires
        0 <= k,
    ensures
        line_of(s, line_start(s, k)) == line_of(s, k),
    decreases k,
{
    if k > 0 && s[k - 1] != '\n' {
        lemma_same_line(s, k - 1);
    }
}

/// Two line starts with the same line number coincide.
pub proof fn lemma_line_start_unique(s: Seq<char>, j1: int, j2: int)
    requires
        0 <= j1,
        0 <= j2,
        line_start(s, j1) == j1,
        line_start(s, j2) == j2,
        line_of(s, j1) == line_of(s, j2),
    ensures
        j1 == j2,
{
    if j1 < j2 {
        lemma_line_of_mono(s, j1, j2 - 1);
        if s[j2 - 1] != '\n' {
            lemma_line_start_le(s, j2 - 1);
        }
    } else if j2 < j1 {
        lemma_line_of_mono(s, j2, j1 - 1);
        if s[j1 - 1] != '\n' {
            lemma_line_start_le(s, j1 - 1);
        }
    }
}

/// The start of line `line_of(s, k)` is the start of the line of `k`.
pub proof fn lemma_start_of_line(s: Seq<char>, k: int)
    requires
        0 <= k <= s.len(),
    ensures
        start_of_line(s, line_of(s, k) as int) == line_start(s, k),
{
    let j0 = line_start(s, k);
    lemma_line_start_le(s, k);
    lemma_same_line(s, k);
    let l = line_of(s, k) as int;
    assert(0 <= j0 <= s.len() && line_start(s, j0) == j0 && line_of(s, j0) == l);
    let j = start_of_line(s, l);
    lemma_line_start_unique(s, j, j0);
}

/// Going from a byte offset to its line and column and back gives the offset
/// again: the line and column name an existing position, whose offset is `p`.
pub proof fn lemma_line_col_round_trip(s: Seq<char>, p: int)
    requires
        is_boundary(s, p),
    ensures
        line_col_valid(s, line_col_of(s, p).0 as int, line_col_of(s, p).1 as int),
        offset_of_line_col(s, line_col_of(s, p).0 as int, line_col_of(s, p).1 as int) == p,
{
    let k = char_index(s, p);
    lemma_start_of_line(s, k);
    lemma_line_start_le(s, k);
    lemma_line_of_mono(s, k, s.len() as int);
    lemma_line_end_from_start(s, k);
}

proof fn lemma_encode_scalar_len(c: char)
    ensures
        encode_scalar(c as u32).len() == utf8_len(c),
{
    char_is_scalar(c);
}

proof fn lemma_byte_len_front(s: Seq<char>)
    requires
        s.len() > 0,
    ensures
        byte_len(s) == utf8_len(s[0]) + byte_len(s.drop_first()),
    decreases s.len(),
{
    if s.len() > 1 {
        lemma_byte_len_front(s.drop_last());
        assert(s.drop_last().drop_first() =~= s.drop_first().drop_last());
        assert(s.drop_first().last() == s.last());
        assert(s.drop_last()[0] == s[0]);
        assert(byte_len(s.drop_first()) == byte_len(s.drop_first().drop_last()) + utf8_len(
            s.drop_first().last(),
        ));
    } else {
        assert(s.drop_last().len() == 0);
        assert(s.drop_first().len() == 0);
        assert(byte_len(s.drop_last()) == 0);
        assert(byte_len(s.drop_first()) == 0);
        assert(s.last() == s[0]);
    }
}

/// `byte_len` is the length of the UTF-8 encoding.
pub proof fn lemma_encode_len(s: Seq<char>)
    ensures
        encode_utf8(s).len() == byte_len(s),
    decreases s.len(),
{
    if s.len() > 0 {
        lemma_byte_len_front(s);
        lemma_encode_len(s.drop_first());
        lemma_encode_scalar_len(s[0]);
    }
}

/// The whole text is at the byte offset of its length.
pub proof fn lemma_byte_offset_full(s: Seq<char>)
    ensures
        byte_offset(s, s.len() as int) == byte_len(s),
{
    assert(s.take(s.len() as int) =~= s);
}

/// Byte offsets in a suffix add to the offset the suffix starts at.
pub proof fn lemma_byte_offset_skip(s: Seq<char>, k: int, j: int)
    requires
        0 <= k <= s.len(),
        0 <= j <= s.len() - k,
    ensures
        byte_offset(s, k + j) == byte_offset(s, k) + byte_offset(s.skip(k), j),
    decreases j,
{
    if j == 0 {
        lemma_byte_offset_zero(s.skip(k));
    } else {
        lemma_byte_offset_skip(s, k, j - 1);
        lemma_byte_offset_step(s, k + j);
        lemma_byte_offset_step(s.skip(k), j);
    }
}

/// A boundary of a suffix, moved by where the suffix starts, is a boundary.
pub proof fn lemma_boundary_skip(s: Seq<char>, k: int, b: int)
    requires
        0 <= k <= s.len(),
        is_boundary(s.skip(k), b),
    ensures
        is_boundary(s, byte_offset(s, k) + b),
        char_index(s, byte_offset(s, k) + b) == k + char_index(s.skip(k), b),
{
    let j = char_index(s.skip(k), b);
    lemma_byte_offset_skip(s, k, j);
    lemma_char_index(s, byte_offset(s, k) + b, k + j);
}

/// A boundary of a prefix is a boundary.
pub proof fn lemma_boundary_take(s: Seq<char>, k: int, b: int)
    requires
        0 <= k <= s.len(),
        is_boundary(s.take(k), b),
    ensures
        is_boundary(s, b),
        char_index(s, b) == char_index(s.take(k), b),
{
    let j = char_index(s.take(k), b);
    assert(s.take(k).take(j) =~= s.take(j));
    lemma_char_index(s, b, j);
}

/// Every boundary lies within the text's byte length.
pub proof fn lemma_boundary_le(s: Seq<char>, p: int)
    requires
        is_boundary(s, p),
    ensures
        0 <= char_index(s, p) <= s.len(),
        byte_offset(s, char_index(s, p)) == p,
        p <= byte_len(s),
{
    let k = char_index(s, p);
    lemma_byte_offset_full(s);
    if k < s.len() {
        lemma_byte_offset_mono(s, k, s.len() as int);
    }
}

/// Character index of the boundary `byte_pos` of `chars`, or `None` where
/// `byte_pos` falls inside a character or beyond the end.
pub fn char_index_of(chars: &Vec<char>, byte_pos: usize) -> (r: Option<usize>)
    ensures
        r is Some <==> is_boundary(chars@, byte_pos as int),
        r matches Some(k) ==> k == char_index(chars@, byte_pos as int),
{
    let ghost s = chars@;
    let mut i: usize = 0;
    let mut b: usize = 0;
    proof {
        lemma_byte_offset_zero(s);
    }
    while i < chars.len() && b < byte_pos
        invariant
            s == chars@,
            0 <= i <= s.len(),
            b == byte_offset(s, i as int),
            b <= byte_pos,
            forall|j: int| 0 <= j < i ==> byte_offset(s, j) < byte_pos,
        decreases s.len() - i,
    {
        proof {
            lemma_byte_offset_step(s, i + 1);
        }
        let w = utf8_width(chars[i]);
        if byte_pos - b < w {
            proof {
                assert forall|j: int| 0 <= j <= s.len() implies byte_offset(s, j) != byte_pos by {
                    if j <= i {
                        if j < i {
                            lemma_byte_offset_mono(s, j, i as int);
                        }
                    } else {
                        if j > i + 1 {
                            lemma_byte_offset_mono(s, i + 1, j);
                        }
                    }
                }
            }
            return None;
        }
        b = b + w;
        i = i + 1;
    }
    if b == byte_pos {
        proof {
            lemma_char_index(s, byte_pos as int, i as int);
        }
        Some(i)
    } else {
        proof {
            assert(i == s.len());
            assert forall|j: int| 0 <= j <= s.len() implies byte_offset(s, j) != byte_pos by {
                if j < i {
                    lemma_byte_offset_mono(s, j, i as int);
                }
            }
        }
        None
    }
}

/// Length of `s` in bytes.
pub fn byte_length(s: &str) -> (r: usize)
    ensures
        r == byte_len(s@),
{
    let n = s.as_bytes().len();
    proof {
        lemma_encode_len(s@);
    }
    n
}

/// Byte offset of column `col` of line `line` of `text`; `None` where the
/// text has no such line or the line is shorter than `col`.
pub fn line_col_to_byte_pos(text: &str, line: usize, col: usize) -> (r: Option<usize>)
    ensures
        r is Some <==> line_col_valid(text@, line as int, col as int),
        r matches Some(p) ==> p == offset_of_line_col(text@, line as int, col as int),
{
    let ghost s = text@;
    let total = byte_length(text);
    let chars = chars_of(text);
    let mut i: usize = 0;
    let mut l: usize = 0;
    let mut b: usize = 0;
    proof {
        lemma_byte_offset_zero(s);
        lemma_byte_offset_full(s);
    }
    while l < line
        invariant
            s == text@,
            chars@ == s,
            total == byte_len(s),
            0 <= i <= s.len(),
            l <= line,
            l == line_of(s, i as int),
            b == byte_offset(s, i as int),
            byte_offset(s, s.len() as int) == byte_len(s),
            line_start(s, i as int) == i || l < line,
        decreases s.len() - i,
    {
        if i == chars.len() {
            proof {
                assert(last_line(s) < line);
                assert(!line_col_valid(s, line as int, col as int));
            }
            return None;
        }
        proof {
            lemma_byte_offset_step(s, i + 1);
            if i + 1 < s.len() {
                lemma_byte_offset_mono(s, i + 1, s.len() as int);
            }
        }
        let c = chars[i];
        b = b + utf8_width(c);
        i = i + 1;
        if c == '\n' {
            l = l + 1;
        }
    }
    let start = i;
    proof {
        lemma_line_start_le(s, start as int);
        lemma_same_line(s, start as int);
        let j = start_of_line(s, line as int);
        assert(0 <= start <= s.len() && line_start(s, start as int) == start && line_of(
            s,
            start as int,
        ) == line);
        lemma_line_start_unique(s, j, start as int);
        lemma_line_of_mono(s, start as int, s.len() as int);
    }
    let mut k: usize = 0;
    while k < col
        invariant
            s == text@,
            chars@ == s,
            total == byte_len(s),
            start == start_of_line(s, line as int),
            start <= s.len(),
            line <= last_line(s),
            k <= col,
            i == start + k,
            i <= s.len(),
            line_end(s, i as int) == line_end(s, start as int),
            b == byte_offset(s, i as int),
            byte_offset(s, s.len() as int) == byte_len(s),
        decreases col - k,
    {
        if i == chars.len() || chars[i] == '\n' {
            proof {
                assert(line_end(s, i as int) == i);
                assert(!line_col_valid(s, line as int, col as int));
            }
            return None;
        }
        proof {
            lemma_byte_offset_step(s, i + 1);
            if i + 1 < s.len() {
                lemma_byte_offset_mono(s, i + 1, s.len() as int);
            }
        }
        b = b + utf8_width(chars[i]);
        i = i + 1;
        k = k + 1;
    }
    proof {
        lemma_line_end_bounds(s, i as int);
    }
    Some(b)
}

/// Number of bytes that UTF-8 uses for `c`.
pub fn utf8_width(c: char) -> (r: usize)
    ensures
        r == utf8_len(c),
{
    let u = c as u32;
    if u < 0x80 {
        1
    } else if u < 0x800 {
        2
    } else if u < 0x10000 {
        3
    } else {
        4
    }
}

/// The characters of `s`, in order.
pub fn chars_of(s: &str) -> (r: Vec<char>)
    ensures
        r@ == s@,
{
    let mut v: Vec<char> = Vec::new();
    for c in it: s.chars()
        invariant
            it.seq() == s@,
            v@ == s@.take(it.index() as int),
    {
        v.push(c);
    }
    assert(v@ =~= s@);
    v
}

/// Line and column of the byte offset `byte_pos` of `text`: the line is the
/// number of line feeds before it, the column the number of characters between
/// the start of that line and it.
pub fn byte_pos_to_line_col(text: &str, byte_pos: usize) -> (r: (usize, usize))
    requires
        is_boundary(text@, byte_pos as int),
    ensures
        r.0 == line_col_of(text@, byte_pos as int).0,
        r.1 == line_col_of(text@, byte_pos as int).1,
{
    let chars = chars_of(text);
    let ghost s = text@;
    let ghost k = char_index(s, byte_pos as int);
    let mut i: usize = 0;
    let mut b: usize = 0;
    let mut line: usize = 0;
    let mut ls: usize = 0;
    proof {
        lemma_byte_offset_zero(s);
        if k > 0 {
            lemma_byte_offset_mono(s, 0, k);
        }
    }
    while b < byte_pos
        invariant
            chars@ == s,
            0 <= k <= s.len(),
            byte_offset(s, k) == byte_pos,
            0 <= i <= k,
            b == byte_offset(s, i as int),
            line == line_of(s, i as int),
            line <= i,
            ls == line_start(s, i as int),
        decreases k - i,
    {
        proof {
            if i == k {
                assert(false);
            }
            lemma_byte_offset_step(s, i + 1);
            if i + 1 < k {
                lemma_byte_offset_mono(s, i + 1, k);
            }
        }
        assert(i < chars.len());
        let c = chars[i];
        let w = utf8_width(c);
        b = b + w;
        if c == '\n' {
            line = line + 1;
            ls = i + 1;
        }
        i = i + 1;
    }
    proof {
        if i < k {
            lemma_byte_offset_mono(s, i as int, k);
        }
        lemma_line_start_le(s, i as int);
    }
    (line, i - ls)
}

} // verus!
