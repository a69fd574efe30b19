//! The text buffer behind a document: its characters, an edit cursor and an
//! optional selection anchor, with line-at-a-time motions.
use vstd::prelude::*;

use crate::text::{
    col_of, last_line, lemma_line_end_bounds, lemma_line_start_le, lemma_same_line, line_end,
    line_of, line_start,
};

verus! {

/// `s` with the characters in `lo..hi` replaced by `ins`.
pub open spec fn splice(s: Seq<char>, lo: int, hi: int, ins: Seq<char>) -> Seq<char> {
    s.take(lo) + ins + s.skip(hi)
}

/// Position reached by one step down from `k`: the same column on the next
/// line, or that line's end where it is shorter; `k` itself on the last line.
pub open spec fn down_from(s: Seq<char>, k: int) -> int {
    let e = line_end(s, k);
    if e >= s.len() {
        k
    } else {
        let ns = e + 1;
        let want = ns + col_of(s, k);
        let ne = line_end(s, ns);
        if want < ne {
            want
        } else {
            ne
        }
    }
}

/// Position reached by one step up from `k`: the same column on the previous
/// line, or that line's end where it is shorter; `k` itself on the first line.
pub open spec fn up_from(s: Seq<char>, k: int) -> int {
    let st = line_start(s, k);
    if st == 0 {
        k
    } else {
        let pe = st - 1;
        let ps = line_start(s, pe);
        let want = ps + col_of(s, k);
        if want < pe {
            want
        } else {
            pe
        }
    }
}

/// Between the start of a line and a position on it lies no line feed.
pub proof fn lemma_line_start_span(s: Seq<char>, k: int, j: int)
    requires
        0 <= k <= s.len(),
        line_start(s, k) <= j <= k,
    ensures
        line_of(s, j) == line_of(s, k),
        line_start(s, j) == line_start(s, k),
    decreases k - j,
{
    if j < k {
        lemma_line_start_le(s, k);
        assert(s[k - 1] != '\n');
        lemma_line_start_span(s, k - 1, j);
    }
}

pub proof fn lemma_down(s: Seq<char>, k: int)
    requires
        0 <= k <= s.len(),
        line_end(s, k) < s.len(),
    ensures
        0 <= down_from(s, k) <= s.len(),
        line_of(s, down_from(s, k)) == line_of(s, k) + 1,
{
    let e = line_end(s, k);
    lemma_line_end_bounds(s, k);
    let ns = e + 1;
    assert(line_of(s, ns) == line_of(s, e) + 1);
    lemma_line_end_bounds(s, ns);
    lemma_line_start_le(s, k);
}

pub proof fn lemma_up(s: Seq<char>, k: int)
    requires
        0 <= k <= s.len(),
        line_start(s, k) > 0,
    ensures
        0 <= up_from(s, k) <= s.len(),
        line_of(s, up_from(s, k)) + 1 == line_of(s, k),
{
    let st = line_start(s, k);
    lemma_line_start_le(s, k);
    lemma_same_line(s, k);
    let pe = st - 1;
    assert(s[pe] == '\n');
    assert(line_of(s, st) == line_of(s, pe) + 1);
    let ps = line_start(s, pe);
    lemma_line_start_le(s, pe);
    let u = up_from(s, k);
    lemma_line_start_span(s, pe, u);
}

/// A position on a line before the last one is followed by a line feed.
pub proof fn lemma_not_last_line(s: Seq<char>, k: int)
    requires
        0 <= k <= s.len(),
        line_of(s, k) < last_line(s),
    ensures
        line_end(s, k) < s.len(),
{
    lemma_line_end_bounds(s, k);
}

/// A position on a line after the first one is preceded by a line feed.
pub proof fn lemma_not_first_line(s: Seq<char>, k: int)
    requires
        0 <= k <= s.len(),
        line_of(s, k) > 0,
    ensures
        line_start(s, k) > 0,
{
    lemma_same_line(s, k);
}

/// An edit typed into a buffer.
#[derive(Debug, Clone)]
pub enum Edit {
    Insert(char),
    Paste(String),
    Enter,
    Backspace,
    Delete,
}

impl Edit {
    /// Number of characters the edit may insert.
    pub open spec fn inserted_len(&self) -> nat {
        match self {
            Edit::Insert(_) => 1,
            Edit::Paste(p) => p@.len(),
            Edit::Enter => 1,
            Edit::Backspace => 0,
            Edit::Delete => 0,
        }
    }
}

/// Text and cursor that `e` leaves in `b`: inserting replaces the selection
/// (or inserts at the cursor) and puts the cursor after the insertion;
/// backspace and delete remove the selection, or else the character before
/// (after) the cursor.
pub open spec fn edit_spec(b: TextBuffer, e: Edit) -> (Seq<char>, int) {
    let s = b.view_text();
    let c = b.view_cursor();
    let (lo, hi) = b.selection_range();
    match e {
        Edit::Insert(ch) => (splice(s, lo, hi, seq![ch]), lo + 1),
        Edit::Paste(p) => (splice(s, lo, hi, p@), lo + p@.len()),
        Edit::Enter => (splice(s, lo, hi, seq!['\n']), lo + 1),
        Edit::Backspace => if lo < hi {
            (splice(s, lo, hi, Seq::empty()), lo)
        } else if c > 0 {
            (splice(s, c - 1, c, Seq::empty()), c - 1)
        } else {
            (s, c)
        },
        Edit::Delete => if lo < hi {
            (splice(s, lo, hi, Seq::empty()), lo)
        } else if c < s.len() {
            (splice(s, c, c + 1, Seq::empty()), c)
        } else {
            (s, c)
        },
    }
}

/// Characters of a document with an edit cursor and an optional selection
/// anchor. The selection, when there is one, spans the anchor and the cursor.
pub struct TextBuffer {
    chars: Vec<char>,
    cursor: usize,
    anchor: Option<usize>,
}

/// Relies on `String`'s `FromIterator<&char>`: the characters, in order.
#[verifier::external_body]
pub(crate) fn string_from_chars(v: &Vec<char>) -> (r: String)
    ensures
        r@ == v@,
{
    v.iter().collect()
}

/// The characters of `v` in `lo..hi`, in order.
pub(crate) fn copy_range(v: &Vec<char>, lo: usize, hi: usize, out: &mut Vec<char>)
    requires
        lo <= hi <= v.len(),
    ensures
        final(out)@ == old(out)@ + v@.subrange(lo as int, hi as int),
{
    let mut i = lo;
    while i < hi
        invariant
            lo <= i <= hi <= v.len(),
            out@ == old(out)@ + v@.subrange(lo as int, i as int),
        decreases hi - i,
    {
        out.push(v[i]);
        i = i + 1;
        assert(out@ =~= old(out)@ + v@.subrange(lo as int, i as int));
    }
}

impl TextBuffer {
    /// The characters of the buffer.
    pub closed spec fn view_text(&self) -> Seq<char> {
        self.chars@
    }

    /// The cursor, as an index into the characters.
    pub closed spec fn view_cursor(&self) -> int {
        self.cursor as int
    }

    /// The selection anchor, as an index into the characters.
    pub closed spec fn view_anchor(&self) -> Option<int> {
        match self.anchor {
            Some(a) => Some(a as int),
            None => None,
        }
    }

    pub open spec fn wf(&self) -> bool {
        &&& 0 <= self.view_cursor() <= self.view_text().len()
        &&& self.view_anchor() matches Some(a) ==> 0 <= a <= self.view_text().len()
    }

    /// Start and end of the selection.
    pub open spec fn selection_range(&self) -> (int, int) {
        match self.view_anchor() {
            Some(a) => if a <= self.view_cursor() {
                (a, self.view_cursor())
            } else {
                (self.view_cursor(), a)
            },
            None => (self.view_cursor(), self.view_cursor()),
        }
    }

    /// An empty buffer with the cursor at its start.
    pub fn new() -> (r: TextBuffer)
        ensures
            r.wf(),
            r.view_text() == Seq::<char>::empty(),
            r.view_cursor() == 0,
            r.view_anchor() is None,
    {
        TextBuffer { chars: Vec::new(), cursor: 0, anchor: None }
    }

    /// A buffer holding `s`, with the cursor at its end.
    pub fn with_text(s: &str) -> (r: TextBuffer)
        ensures
            r.wf(),
            r.view_text() == s@,
            r.view_cursor() == s@.len(),
            r.view_anchor() is None,
    {
        let chars = crate::text::chars_of(s);
        let n = chars.len();
        TextBuffer { chars, cursor: n, anchor: None }
    }

    /// The whole text.
    pub fn text(&self) -> (r: String)
        ensures
            r@ == self.view_text(),
    {
        string_from_chars(&self.chars)
    }

    /// The characters, in order.
    pub fn chars(&self) -> (r: &Vec<char>)
        ensures
            r@ == self.view_text(),
    {
        &self.chars
    }

    /// Number of characters.
    pub fn len(&self) -> (r: usize)
        ensures
            r == self.view_text().len(),
    {
        self.chars.len()
    }

    /// Index of the cursor.
    pub fn cursor(&self) -> (r: usize)
        ensures
            r == self.view_cursor(),
    {
        self.cursor
    }

    /// The selection anchor, if there is one.
    pub fn anchor(&self) -> (r: Option<usize>)
        ensures
            match r {
                Some(a) => self.view_anchor() == Some(a as int),
                None => self.view_anchor() is None,
            },
    {
        self.anchor
    }

    /// Line and column of position `k`.
    pub fn line_col_at(&self, k: usize) -> (r: (usize, usize))
        requires
            k <= self.view_text().len(),
        ensures
            r.0 == line_of(self.view_text(), k as int),
            r.1 == col_of(self.view_text(), k as int),
    {
        let ghost s = self.chars@;
        let mut i: usize = 0;
        let mut line: usize = 0;
        let mut ls: usize = 0;
        while i < k
            invariant
                s == self.chars@,
                0 <= i <= k <= s.len(),
                line == line_of(s, i as int),
                line <= i,
                ls == line_start(s, i as int),
            decreases k - i,
        {
            if self.chars[i] == '\n' {
                line = line + 1;
                ls = i + 1;
            }
            i = i + 1;
        }
        proof {
            lemma_line_start_le(s, i as int);
        }
        (line, i - ls)
    }

    /// Line and column of the cursor.
    pub fn cursor_position(&self) -> (r: (usize, usize))
        requires
            self.wf(),
        ensures
            r.0 == line_of(self.view_text(), self.view_cursor()),
            r.1 == col_of(self.view_text(), self.view_cursor()),
    {
        self.line_col_at(self.cursor)
    }

    /// Number of lines (one more than the number of line feeds).
    pub fn line_count(&self) -> (r: usize)
        requires
            self.wf(),
            self.view_text().len() < usize::MAX,
        ensures
            r == last_line(self.view_text()) + 1,
    {
        let ghost s = self.chars@;
        let mut i: usize = 0;
        let mut line: usize = 0;
        while i < self.chars.len()
            invariant
                s == self.chars@,
                0 <= i <= s.len(),
                s.len() < usize::MAX,
                line == line_of(s, i as int),
                line <= i,
            decreases s.len() - i,
        {
            if self.chars[i] == '\n' {
                line = line + 1;
            }
            i = i + 1;
        }
        line + 1
    }

    /// Index of the last line (the number of line feeds).
    pub fn last_line_index(&self) -> (r: usize)
        ensures
            r == last_line(self.view_text()),
    {
        let ghost s = self.chars@;
        let mut i: usize = 0;
        let mut line: usize = 0;
        while i < self.chars.len()
            invariant
                s == self.chars@,
                0 <= i <= s.len(),
                line == line_of(s, i as int),
                line <= i,
            decreases s.len() - i,
        {
            if self.chars[i] == '\n' {
                line = line + 1;
            }
            i = i + 1;
        }
        line
    }

    /// Index of the start of the line holding position `k`.
    fn find_line_start(&self, k: usize) -> (r: usize)
        requires
            k <= self.view_text().len(),
        ensures
            r == line_start(self.view_text(), k as int),
    {
        let mut i = k;
        while i > 0 && self.chars[i - 1] != '\n'
            invariant
                i <= k <= self.chars.len(),
                line_start(self.chars@, i as int) == line_start(self.chars@, k as int),
            decreases i,
        {
            i = i - 1;
        }
        i
    }

    /// Index of the end of the line holding position `k`.
    fn find_line_end(&self, k: usize) -> (r: usize)
        requires
            k <= self.view_text().len(),
        ensures
            r == line_end(self.view_text(), k as int),
    {
        let mut i = k;
        while i < self.chars.len() && self.chars[i] != '\n'
            invariant
                k <= i <= self.chars.len(),
                line_end(self.chars@, i as int) == line_end(self.chars@, k as int),
            decreases self.chars.len() - i,
        {
            i = i + 1;
        }
        i
    }

    /// One character to the right (not past the end); drops the selection.
    pub fn move_right(&mut self)
        requires
            old(self).wf(),
        ensures
            final(self).wf(),
            final(self).view_text() == old(self).view_text(),
            final(self).view_cursor() == if old(self).view_cursor() < old(self).view_text().len() {
                old(self).view_cursor() + 1
            } else {
                old(self).view_cursor()
            },
            final(self).view_anchor() is None,
    {
        if self.cursor < self.chars.len() {
            self.cursor = self.cursor + 1;
        }
        self.anchor = None;
    }

    /// Extends the selection by one character to the right.
    pub fn select_right(&mut self)
        requires
            old(self).wf(),
        ensures
            final(self).wf(),
            final(self).view_text() == old(self).view_text(),
            final(self).view_cursor() == if old(self).view_cursor() < old(self).view_text().len() {
                old(self).view_cursor() + 1
            } else {
                old(self).view_cursor()
            },
            final(self).view_anchor() == Some(
                match old(self).view_anchor() {
                    Some(a) => a,
                    None => old(self).view_cursor(),
                },
            ),
    {
        if self.anchor.is_none() {
            self.anchor = Some(self.cursor);
        }
        if self.cursor < self.chars.len() {
            self.cursor = self.cursor + 1;
        }
    }

    /// To the start of the current line; drops the selection.
    pub fn move_home(&mut self)
        requires
            old(self).wf(),
        ensures
            final(self).wf(),
            final(self).view_text() == old(self).view_text(),
            final(self).view_cursor() == line_start(old(self).view_text(), old(self).view_cursor()),
            final(self).view_anchor() is None,
    {
        proof {
            lemma_line_start_le(self.chars@, self.cursor as int);
        }
        self.cursor = self.find_line_start(self.cursor);
        self.anchor = None;
    }

    /// To the start of the text; drops the selection.
    pub fn move_document_start(&mut self)
        requires
            old(self).wf(),
        ensures
            final(self).wf(),
            final(self).view_text() == old(self).view_text(),
            final(self).view_cursor() == 0,
            final(self).view_anchor() is None,
    {
        self.cursor = 0;
        self.anchor = None;
    }

    /// To the end of the text; drops the selection.
    pub fn move_document_end(&mut self)
        requires
            old(self).wf(),
        ensures
            final(self).wf(),
            final(self).view_text() == old(self).view_text(),
            final(self).view_cursor() == old(self).view_text().len(),
            final(self).view_anchor() is None,
    {
        self.cursor = self.chars.len();
        self.anchor = None;
    }

    /// One line down, keeping the column where the next line is long enough;
    /// drops the selection.
    pub fn move_down(&mut self)
        requires
            old(self).wf(),
        ensures
            final(self).wf(),
            final(self).view_text() == old(self).view_text(),
            final(self).view_cursor() == down_from(old(self).view_text(), old(self).view_cursor()),
            final(self).view_anchor() is None,
    {
        let ghost s = self.chars@;
        let k = self.cursor;
        proof {
            lemma_line_start_le(s, k as int);
            lemma_line_end_bounds(s, k as int);
        }
        let e = self.find_line_end(k);
        if e < self.chars.len() {
            let st = self.find_line_start(k);
            let col = k - st;
            let ns = e + 1;
            proof {
                lemma_line_end_bounds(s, ns as int);
            }
            let ne = self.find_line_end(ns);
            if col < ne - ns {
                self.cursor = ns + col;
            } else {
                self.cursor = ne;
            }
        }
        self.anchor = None;
    }

    /// One line up, keeping the column where the previous line is long
    /// enough; drops the selection.
    pub fn move_up(&mut self)
        requires
            old(self).wf(),
        ensures
            final(self).wf(),
            final(self).view_text() == old(self).view_text(),
            final(self).view_cursor() == up_from(old(self).view_text(), old(self).view_cursor()),
            final(self).view_anchor() is None,
    {
        let ghost s = self.chars@;
        let k = self.cursor;
        proof {
            lemma_line_start_le(s, k as int);
        }
        let st = self.find_line_start(k);
        if st > 0 {
            let col = k - st;
            let pe = st - 1;
            proof {
                lemma_line_start_le(s, pe as int);
            }
            let ps = self.find_line_start(pe);
            if col < pe - ps {
                self.cursor = ps + col;
            } else {
                self.cursor = pe;
            }
        }
        self.anchor = None;
    }

    /// Moves the cursor to `k`, extending the selection from its anchor
    /// (from the old cursor when there was none).
    pub fn select_to(&mut self, k: usize)
        requires
            old(self).wf(),
            k <= old(self).view_text().len(),
        ensures
            final(self).wf(),
            final(self).view_text() == old(self).view_text(),
            final(self).view_cursor() == k,
            final(self).view_anchor() == Some(
                match old(self).view_anchor() {
                    Some(a) => a,
                    None => old(self).view_cursor(),
                },
            ),
    {
        if self.anchor.is_none() {
            self.anchor = Some(self.cursor);
        }
        self.cursor = k;
    }

    /// Selects the whole text, the cursor at its end.
    pub fn select_all(&mut self)
        requires
            old(self).wf(),
        ensures
            final(self).wf(),
            final(self).view_text() == old(self).view_text(),
            final(self).view_cursor() == old(self).view_text().len(),
            final(self).view_anchor() == Some(0int),
    {
        self.anchor = Some(0);
        self.cursor = self.chars.len();
    }

    /// The selected text, when the selection is not empty.
    pub fn selection(&self) -> (r: Option<String>)
        requires
            self.wf(),
        ensures
            r matches Some(t) ==> t@ == self.view_text().subrange(
                self.selection_range().0,
                self.selection_range().1,
            ),
            r is Some <==> self.selection_range().0 < self.selection_range().1,
    {
        match self.anchor {
            Some(a) => {
                let (lo, hi) = if a <= self.cursor {
                    (a, self.cursor)
                } else {
                    (self.cursor, a)
                };
                if lo < hi {
                    let mut out: Vec<char> = Vec::new();
                    copy_range(&self.chars, lo, hi, &mut out);
                    assert(out@ =~= self.chars@.subrange(lo as int, hi as int));
                    Some(string_from_chars(&out))
                } else {
                    None
                }
            },
            None => None,
        }
    }

    /// Replaces the characters in `lo..hi` by `ins`; the cursor lands after
    /// the inserted characters and the selection is dropped.
    fn replace_range(&mut self, lo: usize, hi: usize, ins: &Vec<char>)
        requires
            old(self).wf(),
            lo <= hi <= old(self).view_text().len(),
            old(self).view_text().len() + ins@.len() <= usize::MAX,
        ensures
            final(self).wf(),
            final(self).view_text() == splice(old(self).view_text(), lo as int, hi as int, ins@),
            final(self).view_cursor() == lo + ins@.len(),
            final(self).view_anchor() is None,
    {
        let mut out: Vec<char> = Vec::new();
        copy_range(&self.chars, 0, lo, &mut out);
        copy_range(ins, 0, ins.len(), &mut out);
        let n = self.chars.len();
        copy_range(&self.chars, hi, n, &mut out);
        assert(out@ =~= splice(self.chars@, lo as int, hi as int, ins@));
        self.chars = out;
        self.cursor = lo + ins.len();
        self.anchor = None;
    }

    /// Replaces the selection (or inserts at the cursor) with `ins`.
    pub fn replace_selection(&mut self, ins: &Vec<char>)
        requires
            old(self).wf(),
            old(self).view_text().len() + ins@.len() <= usize::MAX,
        ensures
            final(self).wf(),
            final(self).view_text() == splice(
                old(self).view_text(),
                old(self).selection_range().0,
                old(self).selection_range().1,
                ins@,
            ),
            final(self).view_cursor() == old(self).selection_range().0 + ins@.len(),
            final(self).view_anchor() is None,
    {
        let (lo, hi) = match self.anchor {
            Some(a) => if a <= self.cursor {
                (a, self.cursor)
            } else {
                (self.cursor, a)
            },
            None => (self.cursor, self.cursor),
        };
        self.replace_range(lo, hi, ins);
    }

    /// Deletes the selection, or else the character before the cursor.
    pub fn backspace(&mut self)
        requires
            old(self).wf(),
        ensures
            final(self).wf(),
            final(self).view_anchor() is None,
            ({
                let (lo, hi) = old(self).selection_range();
                let s = old(self).view_text();
                let c = old(self).view_cursor();
                if lo < hi {
                    final(self).view_text() == splice(s, lo, hi, Seq::empty())
                        && final(self).view_cursor() == lo
                } else if c > 0 {
                    final(self).view_text() == splice(s, c - 1, c, Seq::empty())
                        && final(self).view_cursor() == c - 1
                } else {
                    final(self).view_text() == s && final(self).view_cursor() == c
                }
            }),
    {
        let empty: Vec<char> = Vec::new();
        let _n = self.chars.len();
        let (lo, hi) = match self.anchor {
            Some(a) => if a <= self.cursor {
                (a, self.cursor)
            } else {
                (self.cursor, a)
            },
            None => (self.cursor, self.cursor),
        };
        if lo < hi {
            self.replace_range(lo, hi, &empty);
        } else if self.cursor > 0 {
            let c = self.cursor;
            self.replace_range(c - 1, c, &empty);
        } else {
            self.anchor = None;
        }
    }

    /// Deletes the selection, or else the character after the cursor.
    pub fn delete(&mut self)
        requires
            old(self).wf(),
        ensures
            final(self).wf(),
            final(self).view_anchor() is None,
            ({
                let (lo, hi) = old(self).selection_range();
                let s = old(self).view_text();
                let c = old(self).view_cursor();
                if lo < hi {
                    final(self).view_text() == splice(s, lo, hi, Seq::empty())
                        && final(self).view_cursor() == lo
                } else if c < s.len() {
                    final(self).view_text() == splice(s, c, c + 1, Seq::empty())
                        && final(self).view_cursor() == c
                } else {
                    final(self).view_text() == s && final(self).view_cursor() == c
                }
            }),
    {
        let empty: Vec<char> = Vec::new();
        let _n = self.chars.len();
        let (lo, hi) = match self.anchor {
            Some(a) => if a <= self.cursor {
                (a, self.cursor)
            } else {
                (self.cursor, a)
            },
            None => (self.cursor, self.cursor),
        };
        if lo < hi {
            self.replace_range(lo, hi, &empty);
        } else if self.cursor < self.chars.len() {
            let c = self.cursor;
            self.replace_range(c, c + 1, &empty);
        } else {
            self.anchor = None;
        }
    }

    /// Applies a typed edit (see `edit_spec`).
    pub fn perform(&mut self, e: Edit)
        requires
            old(self).wf(),
            old(self).view_text().len() + e.inserted_len() <= usize::MAX,
        ensures
            final(self).wf(),
            final(self).view_text() == edit_spec(*old(self), e).0,
            final(self).view_cursor() == edit_spec(*old(self), e).1,
    {
        match e {
            Edit::Insert(ch) => {
                let mut v: Vec<char> = Vec::new();
                v.push(ch);
                assert(v@ =~= seq![ch]);
                self.replace_selection(&v);
            },
            Edit::Paste(p) => {
                let v = crate::text::chars_of(p.as_str());
                self.replace_selection(&v);
            },
            Edit::Enter => {
                let mut v: Vec<char> = Vec::new();
                v.push('\n');
                assert(v@ =~= seq!['\n']);
                self.replace_selection(&v);
            },
            Edit::Backspace => self.backspace(),
            Edit::Delete => self.delete(),
        }
    }
}

} // verus!
