//! One open document: its buffer, file facts, undo/redo history and cached
//! statistics.
use vstd::prelude::*;

use crate::buffer::{
    edit_spec, lemma_down, lemma_not_first_line, lemma_not_last_line, lemma_up, Edit, TextBuffer,
};
use crate::encoding::{LineEnding, TextEncoding};
use crate::history::{bounded_push, redo_model, undo_model, HistoryModel};
use crate::text::{
    col_of, last_line, lemma_line_start_le, lemma_start_of_line, line_of, start_of_line,
};

verus! {

/// Default bound of the undo history.
pub const MAX_UNDO_HISTORY: usize = 200;

/// Bound of the undo history for large files.
pub const LARGE_FILE_UNDO_HISTORY: usize = 50;

/// Files above this size (in MiB) get the smaller undo bound.
pub const LARGE_FILE_MB: u64 = 10;

/// Edits closer together than this (in milliseconds) share one undo step.
pub const UNDO_BATCH_TIMEOUT_MS: u64 = 300;

/// A whole-text copy with the cursor position it had.
pub struct TextSnapshot {
    pub text: String,
    pub cursor_line: usize,
    pub cursor_col: usize,
}

/// The snapshot's cursor lies within its own text: some position of the
/// text has that line and column.
pub open spec fn snapshot_valid(s: TextSnapshot) -> bool {
    exists|k: int|
        0 <= k <= s.text@.len() && #[trigger] line_of(s.text@, k) == s.cursor_line && col_of(
            s.text@,
            k,
        ) == s.cursor_col
}

/// Every snapshot of `st` is valid.
pub open spec fn all_valid(st: Seq<TextSnapshot>) -> bool {
    forall|i: int| 0 <= i < st.len() ==> snapshot_valid(#[trigger] st[i])
}

pub proof fn lemma_all_valid_bounded_push(st: Seq<TextSnapshot>, x: TextSnapshot, max: nat)
    requires
        all_valid(st),
        snapshot_valid(x),
    ensures
        all_valid(bounded_push(st, x, max)),
{
    let p = st.push(x);
    assert(all_valid(p)) by {
        assert forall|i: int| 0 <= i < p.len() implies snapshot_valid(#[trigger] p[i]) by {
            if i < st.len() {
                assert(p[i] == st[i]);
            }
        }
    }
    if p.len() > max {
        let q = p.skip(p.len() - max);
        assert forall|i: int| 0 <= i < q.len() implies snapshot_valid(#[trigger] q[i]) by {
            assert(q[i] == p[i + p.len() - max]);
        }
    }
}

/// The texts of a sequence of snapshots.
pub open spec fn texts(st: Seq<TextSnapshot>) -> Seq<Seq<char>> {
    st.map_values(|s: TextSnapshot| s.text@)
}

pub proof fn lemma_texts_bounded_push(st: Seq<TextSnapshot>, x: TextSnapshot, max: nat)
    ensures
        texts(bounded_push(st, x, max)) == bounded_push(texts(st), x.text@, max),
{
    let p = st.push(x);
    assert(texts(p) =~= texts(st).push(x.text@));
    if p.len() > max {
        assert(texts(p.skip(p.len() - max)) =~= texts(p).skip(p.len() - max));
    }
}

pub proof fn lemma_texts_pop(st: Seq<TextSnapshot>)
    requires
        st.len() > 0,
    ensures
        texts(st.drop_last()) == texts(st).drop_last(),
        texts(st).last() == st.last().text@,
{
    assert(texts(st.drop_last()) =~= texts(st).drop_last());
}

/// Unicode white space, as `char::is_whitespace` has it.
pub open spec fn is_space(c: char) -> bool {
    let u = c as u32;
    u == 0x20 || (0x09 <= u && u <= 0x0D) || u == 0x85 || u == 0xA0 || u == 0x1680 || (0x2000
        <= u && u <= 0x200A) || u == 0x2028 || u == 0x2029 || u == 0x202F || u == 0x205F || u
        == 0x3000
}

/// Number of words (maximal runs of non-space characters) among the first
/// `k` characters of `s`.
pub open spec fn words_in(s: Seq<char>, k: int) -> nat
    decreases k,
{
    if k <= 0 {
        0
    } else {
        words_in(s, k - 1) + if !is_space(s[k - 1]) && (k == 1 || is_space(s[k - 2])) {
            1nat
        } else {
            0nat
        }
    }
}

/// Number of words in `s`.
pub open spec fn word_count(s: Seq<char>) -> nat {
    words_in(s, s.len() as int)
}

fn is_space_char(c: char) -> (r: bool)
    ensures
        r == is_space(c),
{
    let u = c as u32;
    u == 0x20 || (0x09 <= u && u <= 0x0D) || u == 0x85 || u == 0xA0 || u == 0x1680 || (0x2000
        <= u && u <= 0x200A) || u == 0x2028 || u == 0x2029 || u == 0x202F || u == 0x205F || u
        == 0x3000
}

/// Number of words in `v`.
pub fn count_words(v: &Vec<char>) -> (r: usize)
    ensures
        r == word_count(v@),
{
    let mut i: usize = 0;
    let mut n: usize = 0;
    while i < v.len()
        invariant
            0 <= i <= v.len(),
            n == words_in(v@, i as int),
            n <= i,
        decreases v.len() - i,
    {
        let starts = !is_space_char(v[i]) && (i == 0 || is_space_char(v[i - 1]));
        if starts {
            n = n + 1;
        }
        i = i + 1;
    }
    n
}

/// How the cursor is brought to another line: line by line from where it is,
/// from the start of the text, or from its end.
#[derive(Debug, Clone, Copy, PartialEq, Eq, Structural)]
pub enum Relocation {
    FromCurrent,
    FromStart,
    FromEnd,
}

/// The cheapest way from line `current` to line `target` of a text whose last
/// line is `last`: fewest single-line steps, ties going to the current line,
/// then to the start.
pub open spec fn relocation_spec(current: int, target: int, last: int) -> Relocation {
    let from_current = if target >= current {
        target - current
    } else {
        current - target
    };
    let from_start = target;
    let from_end = last - target;
    if from_current <= from_start && from_current <= from_end {
        Relocation::FromCurrent
    } else if from_start <= from_end {
        Relocation::FromStart
    } else {
        Relocation::FromEnd
    }
}

/// Picks the relocation strategy (see `relocation_spec`).
pub fn choose_relocation(current: usize, target: usize, last: usize) -> (r: Relocation)
    requires
        target <= last,
    ensures
        r == relocation_spec(current as int, target as int, last as int),
{
    let from_current = if target >= current {
        target - current
    } else {
        current - target
    };
    let from_start = target;
    let from_end = last - target;
    if from_current <= from_start && from_current <= from_end {
        Relocation::FromCurrent
    } else if from_start <= from_end {
        Relocation::FromStart
    } else {
        Relocation::FromEnd
    }
}

/// Where `navigate_to(line, col)` leaves the cursor in `s`: at column `col` of
/// line `line` (the last line where `line` is beyond it), counting columns as
/// steps to the right that may run past the end of the line, never past the
/// end of the text.
pub open spec fn navigate_spec(s: Seq<char>, line: int, col: int) -> int {
    let target = if line < last_line(s) {
        line
    } else {
        last_line(s) as int
    };
    let p = start_of_line(s, target) + col;
    if p < s.len() {
        p
    } else {
        s.len() as int
    }
}

/// One open document.
pub struct Document {
    pub content: TextBuffer,
    pub file_path: Option<String>,
    pub is_modified: bool,
    pub encoding: TextEncoding,
    pub line_ending: LineEnding,
    pub undo_stack: Vec<TextSnapshot>,
    pub redo_stack: Vec<TextSnapshot>,
    pub max_undo: usize,
    /// Time of the last batched edit, in milliseconds of the caller's clock.
    pub last_edit_time: Option<u64>,
    /// First visible line.
    pub scroll_offset: usize,
    pub status_message: Option<String>,
    pub char_count: usize,
    pub word_count: usize,
}

/// `s` records the live text and cursor of `d`.
pub open spec fn is_current_snapshot(d: Document, s: TextSnapshot) -> bool {
    &&& s.text@ == d.content.view_text()
    &&& s.cursor_line == line_of(d.content.view_text(), d.content.view_cursor())
    &&& s.cursor_col == col_of(d.content.view_text(), d.content.view_cursor())
}

/// `st` is `d`'s undo stack with a snapshot of `d`'s live text and cursor
/// pushed on it, the oldest entry evicted when over the bound.
pub open spec fn pushed_current(d: Document, st: Seq<TextSnapshot>) -> bool {
    exists|s: TextSnapshot|
        #[trigger] is_current_snapshot(d, s) && st == bounded_push(d.undo_stack@, s, d.max_undo as nat)
}

/// Path, encoding, line ending and undo bound are the same in both.
pub open spec fn same_file_facts(d0: Document, d1: Document) -> bool {
    &&& d1.file_path == d0.file_path
    &&& d1.encoding == d0.encoding
    &&& d1.line_ending == d0.line_ending
    &&& d1.max_undo == d0.max_undo
}

/// What a boundary snapshot leaves: the live state pushed on the undo stack,
/// redo cleared, the batching window restarted, nothing else changed.
pub open spec fn snapshot_post(d0: Document, d1: Document) -> bool {
    &&& d1.wf()
    &&& pushed_current(d0, d1.undo_stack@)
    &&& d1.redo_stack@.len() == 0
    &&& d1.history() == (HistoryModel {
        text: d0.history().text,
        undo: bounded_push(d0.history().undo, d0.history().text, d0.history().max),
        redo: Seq::empty(),
        max: d0.history().max,
    })
    &&& d1.content == d0.content
    &&& d1.last_edit_time is None
    &&& d1.is_modified == d0.is_modified
    &&& d1.scroll_offset == d0.scroll_offset
    &&& d1.status_message == d0.status_message
    &&& same_file_facts(d0, d1)
}

/// What the batching snapshot before a typed edit at `now` leaves: when a
/// new batch starts, the live state pushed on the undo stack and redo
/// cleared; otherwise both stacks as they were. The batch time becomes `now`.
pub open spec fn batch_post(d0: Document, d1: Document, now: u64) -> bool {
    &&& d1.wf()
    &&& d1.history() == (if d0.starts_batch(now) {
        HistoryModel {
            text: d0.history().text,
            undo: bounded_push(d0.history().undo, d0.history().text, d0.history().max),
            redo: Seq::empty(),
            max: d0.history().max,
        }
    } else {
        d0.history()
    })
    &&& d0.starts_batch(now) ==> pushed_current(d0, d1.undo_stack@) && d1.redo_stack@.len() == 0
    &&& !d0.starts_batch(now) ==> d1.undo_stack == d0.undo_stack && d1.redo_stack
        == d0.redo_stack
    &&& d1.content == d0.content
    &&& d1.last_edit_time == Some(now)
    &&& d1.is_modified == d0.is_modified
    &&& d1.scroll_offset == d0.scroll_offset
    &&& d1.status_message == d0.status_message
    &&& same_file_facts(d0, d1)
}

/// What undo leaves: nothing changes on an empty undo stack; otherwise the
/// newest entry's text becomes the live text with the cursor at its
/// recorded line and column, the live state goes onto redo, and the
/// document counts as modified.
pub open spec fn undo_post(d0: Document, d1: Document) -> bool {
    &&& d1.wf()
    &&& d1.history() == undo_model(d0.history())
    &&& d0.undo_stack.len() == 0 ==> d1 == d0
    &&& d0.undo_stack.len() > 0 ==> {
        let s = d0.undo_stack@.last();
        &&& d1.content.view_text() == s.text@
        &&& d1.content.view_cursor() == navigate_spec(
            s.text@,
            s.cursor_line as int,
            s.cursor_col as int,
        )
        &&& d1.content.view_anchor() is None
        &&& d1.undo_stack@ == d0.undo_stack@.drop_last()
        &&& exists|c: TextSnapshot|
            #[trigger] is_current_snapshot(d0, c) && d1.redo_stack@ == d0.redo_stack@.push(c)
        &&& d1.is_modified
        &&& d1.status_message == d0.status_message
        &&& same_file_facts(d0, d1)
    }
}

/// What redo leaves: nothing changes on an empty redo stack; otherwise the
/// newest redo entry's text becomes the live text with the cursor at its
/// recorded line and column, the live state goes onto undo (within its
/// bound), and the document counts as modified.
pub open spec fn redo_post(d0: Document, d1: Document) -> bool {
    &&& d1.wf()
    &&& d1.history() == redo_model(d0.history())
    &&& d0.redo_stack.len() == 0 ==> d1 == d0
    &&& d0.redo_stack.len() > 0 ==> {
        let s = d0.redo_stack@.last();
        &&& d1.content.view_text() == s.text@
        &&& d1.content.view_cursor() == navigate_spec(
            s.text@,
            s.cursor_line as int,
            s.cursor_col as int,
        )
        &&& d1.content.view_anchor() is None
        &&& d1.redo_stack@ == d0.redo_stack@.drop_last()
        &&& pushed_current(d0, d1.undo_stack@)
        &&& d1.is_modified
        &&& d1.status_message == d0.status_message
        &&& same_file_facts(d0, d1)
    }
}

impl Default for Document {
    fn default() -> (r: Document)
        ensures
            r.wf(),
            r.content.view_text().len() == 0,
            r.file_path is None,
            !r.is_modified,
            r.encoding == TextEncoding::Utf8,
            r.undo_stack.len() == 0,
            r.redo_stack.len() == 0,
            r.max_undo == MAX_UNDO_HISTORY,
    {
        Document::new()
    }
}

impl Document {
    /// Texts of the live buffer and of both history stacks.
    pub open spec fn history(&self) -> HistoryModel {
        HistoryModel {
            text: self.content.view_text(),
            undo: texts(self.undo_stack@),
            redo: texts(self.redo_stack@),
            max: self.max_undo as nat,
        }
    }

    /// The cached statistics describe the live text.
    pub open spec fn stats_current(&self) -> bool {
        &&& self.char_count == self.content.view_text().len()
        &&& self.word_count == word_count(self.content.view_text())
    }

    pub open spec fn wf(&self) -> bool {
        &&& self.content.wf()
        &&& self.max_undo >= 1
        &&& self.undo_stack.len() <= self.max_undo
        &&& all_valid(self.undo_stack@)
        &&& all_valid(self.redo_stack@)
        &&& self.stats_current()
    }

    /// An empty, unmodified, untitled document.
    pub fn new() -> (r: Document)
        ensures
            r.wf(),
            r.content.view_text().len() == 0,
            r.file_path is None,
            !r.is_modified,
            r.encoding == TextEncoding::Utf8,
            r.line_ending == LineEnding::Lf,
            r.undo_stack.len() == 0,
            r.redo_stack.len() == 0,
            r.max_undo == MAX_UNDO_HISTORY,
            r.last_edit_time is None,
            r.scroll_offset == 0,
            r.status_message is None,
    {
        Document {
            content: TextBuffer::new(),
            file_path: None,
            is_modified: false,
            encoding: TextEncoding::Utf8,
            line_ending: LineEnding::Lf,
            undo_stack: Vec::new(),
            redo_stack: Vec::new(),
            max_undo: MAX_UNDO_HISTORY,
            last_edit_time: None,
            scroll_offset: 0,
            status_message: None,
            char_count: 0,
            word_count: 0,
        }
    }

    /// Recomputes the cached character and word counts.
    pub fn update_stats_cache(&mut self)
        ensures
            final(self).stats_current(),
            final(self).content == old(self).content,
            final(self).undo_stack == old(self).undo_stack,
            final(self).redo_stack == old(self).redo_stack,
            final(self).max_undo == old(self).max_undo,
            final(self).is_modified == old(self).is_modified,
            final(self).file_path == old(self).file_path,
            final(self).last_edit_time == old(self).last_edit_time,
            final(self).scroll_offset == old(self).scroll_offset,
            final(self).encoding == old(self).encoding,
            final(self).line_ending == old(self).line_ending,
            final(self).status_message == old(self).status_message,
    {
        self.char_count = self.content.len();
        self.word_count = count_words(self.content.chars());
    }

    /// The live text with the cursor's line and column.
    pub fn current_snapshot(&self) -> (r: TextSnapshot)
        requires
            self.content.wf(),
        ensures
            r.text@ == self.content.view_text(),
            r.cursor_line == line_of(self.content.view_text(), self.content.view_cursor()),
            r.cursor_col == col_of(self.content.view_text(), self.content.view_cursor()),
            snapshot_valid(r),
    {
        let (cursor_line, cursor_col) = self.content.cursor_position();
        let r = TextSnapshot { text: self.content.text(), cursor_line, cursor_col };
        assert(line_of(r.text@, self.content.view_cursor()) == r.cursor_line);
        r
    }

    /// Pushes `snapshot` on the undo stack, evicting the oldest entry when
    /// the stack would exceed its bound.
    pub fn push_snapshot(&mut self, snapshot: TextSnapshot)
        requires
            old(self).max_undo >= 1,
            old(self).undo_stack.len() <= old(self).max_undo,
        ensures
            final(self).undo_stack@ == bounded_push(
                old(self).undo_stack@,
                snapshot,
                old(self).max_undo as nat,
            ),
            final(self).undo_stack.len() <= final(self).max_undo,
            final(self).content == old(self).content,
            final(self).redo_stack == old(self).redo_stack,
            final(self).max_undo == old(self).max_undo,
            final(self).is_modified == old(self).is_modified,
            final(self).file_path == old(self).file_path,
            final(self).last_edit_time == old(self).last_edit_time,
            final(self).scroll_offset == old(self).scroll_offset,
            final(self).char_count == old(self).char_count,
            final(self).word_count == old(self).word_count,
            final(self).encoding == old(self).encoding,
            final(self).line_ending == old(self).line_ending,
            final(self).status_message == old(self).status_message,
    {
        let ghost p = self.undo_stack@.push(snapshot);
        self.undo_stack.push(snapshot);
        if self.undo_stack.len() > self.max_undo {
            self.undo_stack.remove(0);
            assert(self.undo_stack@ =~= p.skip(p.len() - self.max_undo));
        }
    }

    /// Boundary snapshot: always pushes the live state, clears redo and
    /// restarts the batching window.
    pub fn save_snapshot(&mut self)
        requires
            old(self).wf(),
        ensures
            snapshot_post(*old(self), *final(self)),
    {
        let snapshot = self.current_snapshot();
        proof {
            lemma_texts_bounded_push(self.undo_stack@, snapshot, self.max_undo as nat);
            lemma_all_valid_bounded_push(self.undo_stack@, snapshot, self.max_undo as nat);
        }
        assert(is_current_snapshot(*old(self), snapshot));
        self.push_snapshot(snapshot);
        self.redo_stack.clear();
        self.last_edit_time = None;
        assert(texts(self.redo_stack@) =~= Seq::<Seq<char>>::empty());
    }

    /// A new batch starts at `now` when there was none, or when more than
    /// the batching window has passed since the last batched edit.
    pub open spec fn starts_batch(&self, now: u64) -> bool {
        match self.last_edit_time {
            Some(last) => now as int - last as int > UNDO_BATCH_TIMEOUT_MS as int,
            None => true,
        }
    }

    /// Called before each typed edit at time `now`: snapshots the live state
    /// (and clears redo) only when a new batch starts.
    pub fn save_snapshot_if_needed(&mut self, now: u64)
        requires
            old(self).wf(),
        ensures
            batch_post(*old(self), *final(self), now),
    {
        let should_save = match self.last_edit_time {
            Some(last) => now > last && now - last > UNDO_BATCH_TIMEOUT_MS,
            None => true,
        };
        if should_save {
            let snapshot = self.current_snapshot();
            proof {
                lemma_texts_bounded_push(self.undo_stack@, snapshot, self.max_undo as nat);
                lemma_all_valid_bounded_push(self.undo_stack@, snapshot, self.max_undo as nat);
            }
            assert(is_current_snapshot(*old(self), snapshot));
            self.push_snapshot(snapshot);
            self.redo_stack.clear();
            assert(texts(self.redo_stack@) =~= Seq::<Seq<char>>::empty());
        }
        self.last_edit_time = Some(now);
    }

    /// Moves the cursor to column `col` of line `line` (the last line where
    /// `line` is beyond it), going line by line along the cheapest route (see
    /// `choose_relocation`), then stepping right `col` times from the line's
    /// start. The first visible line becomes the target line.
    pub fn navigate_to(&mut self, line: usize, col: usize)
        requires
            old(self).wf(),
        ensures
            final(self).wf(),
            final(self).content.view_text() == old(self).content.view_text(),
            final(self).content.view_cursor() == navigate_spec(
                old(self).content.view_text(),
                line as int,
                col as int,
            ),
            final(self).content.view_anchor() is None,
            final(self).scroll_offset == (if line < last_line(old(self).content.view_text()) {
                line as nat
            } else {
                last_line(old(self).content.view_text())
            }),
            final(self).undo_stack == old(self).undo_stack,
            final(self).redo_stack == old(self).redo_stack,
            final(self).max_undo == old(self).max_undo,
            final(self).is_modified == old(self).is_modified,
            final(self).file_path == old(self).file_path,
            final(self).last_edit_time == old(self).last_edit_time,
            final(self).status_message == old(self).status_message,
            final(self).encoding == old(self).encoding,
            final(self).line_ending == old(self).line_ending,
    {
        let ghost s = self.content.view_text();
        let (current_line, _) = self.content.cursor_position();
        let last = self.content.last_line_index();
        let target = if line < last {
            line
        } else {
            last
        };
        proof {
            lemma_line_of_bound(s, self.content.view_cursor());
        }
        match choose_relocation(current_line, target, last) {
            Relocation::FromCurrent => {
                if target > current_line {
                    let steps = target - current_line;
                    let mut i: usize = 0;
                    while i < steps
                        invariant
                            self.wf(),
                            self.content.view_text() == s,
                            i <= steps,
                            steps == target - current_line,
                            target <= last,
                            last == last_line(s),
                            line_of(s, self.content.view_cursor()) == current_line + i,
                            self.undo_stack == old(self).undo_stack,
                            self.redo_stack == old(self).redo_stack,
                            self.max_undo == old(self).max_undo,
                            self.is_modified == old(self).is_modified,
                            self.file_path == old(self).file_path,
                            self.last_edit_time == old(self).last_edit_time,
                            self.status_message == old(self).status_message,
                            self.encoding == old(self).encoding,
                            self.line_ending == old(self).line_ending,
                        decreases steps - i,
                    {
                        proof {
                            lemma_not_last_line(s, self.content.view_cursor());
                            lemma_down(s, self.content.view_cursor());
                        }
                        self.content.move_down();
                        i = i + 1;
                    }
                } else {
                    let steps = current_line - target;
                    let mut i: usize = 0;
                    while i < steps
                        invariant
                            self.wf(),
                            self.content.view_text() == s,
                            i <= steps,
                            steps == current_line - target,
                            line_of(s, self.content.view_cursor()) == current_line - i,
                            self.undo_stack == old(self).undo_stack,
                            self.redo_stack == old(self).redo_stack,
                            self.max_undo == old(self).max_undo,
                            self.is_modified == old(self).is_modified,
                            self.file_path == old(self).file_path,
                            self.last_edit_time == old(self).last_edit_time,
                            self.status_message == old(self).status_message,
                            self.encoding == old(self).encoding,
                            self.line_ending == old(self).line_ending,
                        decreases steps - i,
                    {
                        proof {
                            lemma_not_first_line(s, self.content.view_cursor());
                            lemma_up(s, self.content.view_cursor());
                        }
                        self.content.move_up();
                        i = i + 1;
                    }
                }
            },
            Relocation::FromStart => {
                self.content.move_document_start();
                let mut i: usize = 0;
                while i < target
                    invariant
                        self.wf(),
                        self.content.view_text() == s,
                        i <= target,
                        target <= last,
                        last == last_line(s),
                        line_of(s, self.content.view_cursor()) == i,
                        self.undo_stack == old(self).undo_stack,
                        self.redo_stack == old(self).redo_stack,
                        self.max_undo == old(self).max_undo,
                        self.is_modified == old(self).is_modified,
                        self.file_path == old(self).file_path,
                        self.last_edit_time == old(self).last_edit_time,
                        self.status_message == old(self).status_message,
                        self.encoding == old(self).encoding,
                        self.line_ending == old(self).line_ending,
                    decreases target - i,
                {
                    proof {
                        lemma_not_last_line(s, self.content.view_cursor());
                        lemma_down(s, self.content.view_cursor());
                    }
                    self.content.move_down();
                    i = i + 1;
                }
            },
            Relocation::FromEnd => {
                self.content.move_document_end();
                let steps = last - target;
                let mut i: usize = 0;
                while i < steps
                    invariant
                        self.wf(),
                        self.content.view_text() == s,
                        i <= steps,
                        steps == last - target,
                        last == last_line(s),
                        line_of(s, self.content.view_cursor()) == last - i,
                        self.undo_stack == old(self).undo_stack,
                        self.redo_stack == old(self).redo_stack,
                        self.max_undo == old(self).max_undo,
                        self.is_modified == old(self).is_modified,
                        self.file_path == old(self).file_path,
                        self.last_edit_time == old(self).last_edit_time,
                        self.status_message == old(self).status_message,
                        self.encoding == old(self).encoding,
                        self.line_ending == old(self).line_ending,
                    decreases steps - i,
                {
                    proof {
                        lemma_not_first_line(s, self.content.view_cursor());
                        lemma_up(s, self.content.view_cursor());
                    }
                    self.content.move_up();
                    i = i + 1;
                }
            },
        }
        assert(line_of(s, self.content.view_cursor()) == target);
        proof {
            lemma_start_of_line(s, self.content.view_cursor());
            lemma_line_start_le(s, self.content.view_cursor());
        }
        self.content.move_home();
        let ghost start = self.content.view_cursor();
        assert(start == start_of_line(s, target as int));
        let mut j: usize = 0;
        while j < col
            invariant
                self.wf(),
                self.content.view_text() == s,
                j <= col,
                0 <= start <= s.len(),
                self.content.view_anchor() is None,
                self.content.view_cursor() == (if start + j < s.len() {
                    start + j
                } else {
                    s.len() as int
                }),
                self.undo_stack == old(self).undo_stack,
                self.redo_stack == old(self).redo_stack,
                self.max_undo == old(self).max_undo,
                self.is_modified == old(self).is_modified,
                self.file_path == old(self).file_path,
                self.last_edit_time == old(self).last_edit_time,
                self.status_message == old(self).status_message,
                self.encoding == old(self).encoding,
                self.line_ending == old(self).line_ending,
            decreases col - j,
        {
            self.content.move_right();
            j = j + 1;
        }
        self.scroll_offset = target;
    }

    /// Scrolls the first visible line by `lines` (down when positive),
    /// keeping it between the first and the last line.
    pub fn scroll_by(&mut self, lines: i32)
        requires
            old(self).wf(),
        ensures
            final(self).wf(),
            final(self).scroll_offset as int == ({
                let want = old(self).scroll_offset as int + lines as int;
                let last = last_line(old(self).content.view_text()) as int;
                if want < 0 {
                    0
                } else if want > last {
                    last
                } else {
                    want
                }
            }),
            final(self).content == old(self).content,
            final(self).undo_stack == old(self).undo_stack,
            final(self).redo_stack == old(self).redo_stack,
            final(self).is_modified == old(self).is_modified,
            same_file_facts(*old(self), *final(self)),
    {
        let last = self.content.last_line_index();
        let want: i128 = self.scroll_offset as i128 + lines as i128;
        self.scroll_offset = if want < 0 {
            0
        } else if want > last as i128 {
            last
        } else {
            want as usize
        };
    }

    /// Replaces the buffer with a fresh one holding `text` (cursor at its
    /// end) and recomputes the statistics.
    pub fn install_text(&mut self, text: &str)
        requires
            old(self).wf(),
        ensures
            final(self).wf(),
            final(self).content.view_text() == text@,
            final(self).content.view_cursor() == text@.len(),
            final(self).undo_stack == old(self).undo_stack,
            final(self).redo_stack == old(self).redo_stack,
            final(self).max_undo == old(self).max_undo,
            final(self).is_modified == old(self).is_modified,
            final(self).file_path == old(self).file_path,
            final(self).last_edit_time == old(self).last_edit_time,
            final(self).scroll_offset == old(self).scroll_offset,
            final(self).status_message == old(self).status_message,
            final(self).encoding == old(self).encoding,
            final(self).line_ending == old(self).line_ending,
    {
        self.content = TextBuffer::with_text(text);
        self.update_stats_cache();
    }

    /// Steps back one undo entry: the live state goes onto redo, the entry's
    /// text becomes the live text with the cursor at its recorded line and
    /// column, and the document counts as modified. Nothing happens on an
    /// empty undo stack.
    pub fn undo(&mut self)
        requires
            old(self).wf(),
        ensures
            undo_post(*old(self), *final(self)),
    {
        if self.undo_stack.len() == 0 {
            return;
        }
        let ghost old_undo = self.undo_stack@;
        let ghost old_redo = self.redo_stack@;
        let current = self.current_snapshot();
        let snapshot = match self.undo_stack.pop() {
            Some(s) => s,
            None => {
                return;
            },
        };
        proof {
            lemma_texts_pop(old_undo);
            assert(all_valid(self.undo_stack@)) by {
                assert forall|i: int| 0 <= i < self.undo_stack@.len() implies snapshot_valid(
                    #[trigger] self.undo_stack@[i],
                ) by {
                    assert(self.undo_stack@[i] == old_undo[i]);
                }
            }
        }
        self.redo_stack.push(current);
        assert(all_valid(self.redo_stack@)) by {
            assert forall|i: int| 0 <= i < self.redo_stack@.len() implies snapshot_valid(
                #[trigger] self.redo_stack@[i],
            ) by {
                if i < old_redo.len() {
                    assert(self.redo_stack@[i] == old_redo[i]);
                }
            }
        }
        assert(texts(self.redo_stack@) =~= texts(old_redo).push(current.text@));
        assert(is_current_snapshot(*old(self), current));
        self.install_text(snapshot.text.as_str());
        self.is_modified = true;
        self.navigate_to(snapshot.cursor_line, snapshot.cursor_col);
    }

    /// Steps forward one redo entry: the live state goes onto undo (within
    /// its bound), the entry's text becomes the live text with the cursor at
    /// its recorded line and column, and the document counts as modified.
    /// Nothing happens on an empty redo stack.
    pub fn redo(&mut self)
        requires
            old(self).wf(),
        ensures
            redo_post(*old(self), *final(self)),
    {
        if self.redo_stack.len() == 0 {
            return;
        }
        let ghost old_undo = self.undo_stack@;
        let ghost old_redo = self.redo_stack@;
        let current = self.current_snapshot();
        let snapshot = match self.redo_stack.pop() {
            Some(s) => s,
            None => {
                return;
            },
        };
        proof {
            lemma_texts_pop(old_redo);
            lemma_texts_bounded_push(old_undo, current, self.max_undo as nat);
            lemma_all_valid_bounded_push(old_undo, current, self.max_undo as nat);
            assert(all_valid(self.redo_stack@)) by {
                assert forall|i: int| 0 <= i < self.redo_stack@.len() implies snapshot_valid(
                    #[trigger] self.redo_stack@[i],
                ) by {
                    assert(self.redo_stack@[i] == old_redo[i]);
                }
            }
        }
        assert(is_current_snapshot(*old(self), current));
        self.push_snapshot(current);
        self.install_text(snapshot.text.as_str());
        self.is_modified = true;
        self.navigate_to(snapshot.cursor_line, snapshot.cursor_col);
    }

    /// Takes over the text `text` that an editing widget produced from a
    /// typed edit at time `now`, with the widget's cursor at `line`, `col`:
    /// batches the change into the undo history (see
    /// `save_snapshot_if_needed`), installs the text, moves the cursor there,
    /// marks the document modified and clears the status message.
    pub fn take_typed_text(&mut self, text: &str, line: usize, col: usize, now: u64)
        requires
            old(self).wf(),
        ensures
            final(self).wf(),
            final(self).content.view_text() == text@,
            final(self).content.view_cursor() == navigate_spec(text@, line as int, col as int),
            final(self).is_modified,
            final(self).status_message is None,
            final(self).last_edit_time == Some(now),
            final(self).history().undo == (if old(self).starts_batch(now) {
                bounded_push(
                    old(self).history().undo,
                    old(self).history().text,
                    old(self).history().max,
                )
            } else {
                old(self).history().undo
            }),
            old(self).starts_batch(now) ==> final(self).history().redo.len() == 0,
            !old(self).starts_batch(now) ==> final(self).history().redo == old(self).history().redo,
    {
        self.save_snapshot_if_needed(now);
        self.install_text(text);
        self.navigate_to(line, col);
        self.is_modified = true;
        self.status_message = None;
    }

    /// A typed edit at time `now` (milliseconds): batches it into the undo
    /// history (see `save_snapshot_if_needed`), applies it to the buffer,
    /// marks the document modified, clears the status message and
    /// recomputes the statistics.
    pub fn apply_edit(&mut self, edit: Edit, now: u64)
        requires
            old(self).wf(),
            old(self).content.view_text().len() + edit.inserted_len() <= usize::MAX,
        ensures
            final(self).wf(),
            final(self).content.view_text() == edit_spec(old(self).content, edit).0,
            final(self).content.view_cursor() == edit_spec(old(self).content, edit).1,
            final(self).is_modified,
            final(self).status_message is None,
            final(self).last_edit_time == Some(now),
            final(self).history().undo == (if old(self).starts_batch(now) {
                bounded_push(
                    old(self).history().undo,
                    old(self).history().text,
                    old(self).history().max,
                )
            } else {
                old(self).history().undo
            }),
            old(self).starts_batch(now) ==> final(self).history().redo.len() == 0,
            !old(self).starts_batch(now) ==> final(self).history().redo == old(self).history().redo,
    {
        self.save_snapshot_if_needed(now);
        self.content.perform(edit);
        self.is_modified = true;
        self.status_message = None;
        self.update_stats_cache();
    }
}

/// The line of a position is at most the last line.
pub proof fn lemma_line_of_bound(s: Seq<char>, k: int)
    requires
        0 <= k <= s.len(),
    ensures
        line_of(s, k) <= last_line(s),
{
    crate::text::lemma_line_of_mono(s, k, s.len() as int);
}

} // verus!
