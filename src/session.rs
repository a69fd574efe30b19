//! The editing session: the open documents in tab order, the active one,
//! and the find/replace state they share.
use vstd::prelude::*;

use crate::buffer::{edit_spec, Edit};
use crate::document::{Document, MAX_UNDO_HISTORY};
use crate::encoding::{LineEnding, TextEncoding};
use crate::history::{redo_model, undo_model};
use crate::search::{find_next_post, find_previous_post, replace_all_post, replace_one_post, SearchState};

verus! {

/// The open documents and the state shared across them.
pub struct Notepad {
    pub tabs: Vec<Document>,
    pub active_tab: usize,
    pub search: SearchState,
    pub dark_mode: bool,
    pub word_wrap: bool,
    pub show_find: bool,
    pub show_replace: bool,
    pub show_goto: bool,
    pub goto_input: String,
    pub active_menu: Option<Menu>,
    pub show_context_menu: bool,
}

/// The menus of the menu bar.
#[derive(Debug, Clone, Copy, PartialEq, Eq, Structural)]
pub enum Menu {
    File,
    Edit,
    Search,
    View,
}

/// What became of a request to close a tab.
#[derive(Debug, Clone, Copy, PartialEq, Eq, Structural)]
pub enum CloseOutcome {
    /// The index named no tab: nothing happened.
    Ignored,
    /// The tab holds unsaved changes: the caller asks for confirmation and
    /// reports the answer to `confirm_close_tab`.
    NeedsConfirmation,
    /// The tab was closed.
    Closed,
}

/// An empty, unmodified, untitled UTF-8 document with LF line endings, no
/// history and the default undo bound.
pub open spec fn is_fresh(d: Document) -> bool {
    &&& d.content.view_text().len() == 0
    &&& !d.is_modified
    &&& d.file_path is None
    &&& d.undo_stack.len() == 0
    &&& d.redo_stack.len() == 0
    &&& d.max_undo == MAX_UNDO_HISTORY
    &&& d.encoding == TextEncoding::Utf8
    &&& d.line_ending == LineEnding::Lf
    &&& d.last_edit_time is None
}

/// The search query, replacement and toggles are the same in both.
pub open spec fn same_queries(s0: SearchState, s1: SearchState) -> bool {
    &&& s1.find_query == s0.find_query
    &&& s1.replace_query == s0.replace_query
    &&& s1.case_sensitive == s0.case_sensitive
    &&& s1.use_regex == s0.use_regex
}

/// The menus, panels, go-to input and view toggles are the same in both.
pub open spec fn same_ui(n0: Notepad, n1: Notepad) -> bool {
    &&& n1.active_menu == n0.active_menu
    &&& n1.show_context_menu == n0.show_context_menu
    &&& n1.show_find == n0.show_find
    &&& n1.show_replace == n0.show_replace
    &&& n1.show_goto == n0.show_goto
    &&& n1.goto_input == n0.goto_input
    &&& n1.dark_mode == n0.dark_mode
    &&& n1.word_wrap == n0.word_wrap
}

/// `n1` is `n0` with tab `index` removed: the last remaining tab is reset
/// to a fresh document instead; the active tab keeps pointing at the same
/// document where it can.
pub open spec fn tab_removed(n0: Notepad, n1: Notepad, index: int) -> bool {
    &&& n1.wf()
    &&& n1.search == n0.search
    &&& same_ui(n0, n1)
    &&& n0.tabs.len() == 1 ==> {
        &&& n1.tabs.len() == 1
        &&& n1.active_tab == 0
        &&& is_fresh(n1.tabs[0])
    }
    &&& n0.tabs.len() > 1 ==> {
        &&& n1.tabs@ == n0.tabs@.remove(index)
        &&& n1.active_tab == (if n0.active_tab >= n1.tabs.len() {
            (n1.tabs.len() - 1) as usize
        } else if n0.active_tab > index {
            (n0.active_tab - 1) as usize
        } else {
            n0.active_tab
        })
    }
}

impl Notepad {
    pub open spec fn wf(&self) -> bool {
        &&& self.tabs.len() >= 1
        &&& self.active_tab < self.tabs.len()
        &&& forall|i: int| 0 <= i < self.tabs.len() ==> (#[trigger] self.tabs[i]).wf()
    }

    /// The document of the active tab.
    pub open spec fn active(&self) -> Document {
        self.tabs[self.active_tab as int]
    }

    /// A session with one empty document and default settings.
    pub fn new() -> (r: Notepad)
        ensures
            r.wf(),
            r.tabs.len() == 1,
            r.active_tab == 0,
            is_fresh(r.active()),
            r.search.find_query@.len() == 0,
            r.search.replace_query@.len() == 0,
            r.search.find_cursor == 0,
            r.search.case_sensitive,
            !r.search.use_regex,
    {
        let mut tabs: Vec<Document> = Vec::new();
        tabs.push(Document::new());
        Notepad {
            tabs,
            active_tab: 0,
            search: SearchState::new(),
            dark_mode: false,
            word_wrap: true,
            show_find: false,
            show_replace: false,
            show_goto: false,
            goto_input: String::new(),
            active_menu: None,
            show_context_menu: false,
        }
    }

    /// Same as `new`.
    pub fn test_default() -> (r: Notepad)
        ensures
            r.wf(),
            r.tabs.len() == 1,
            r.active_tab == 0,
            is_fresh(r.active()),
            r.search.find_query@.len() == 0,
            r.search.replace_query@.len() == 0,
            r.search.find_cursor == 0,
            r.search.case_sensitive,
            !r.search.use_regex,
    {
        Notepad::new()
    }

    /// The active document.
    pub fn active_doc(&self) -> (r: &Document)
        requires
            self.wf(),
        ensures
            *r == self.active(),
    {
        &self.tabs[self.active_tab]
    }

    /// The active document, for changing it in place.
    pub fn active_doc_mut(&mut self) -> (r: &mut Document)
        requires
            old(self).wf(),
        ensures
            *r == old(self).active(),
            final(self).active_tab == old(self).active_tab,
            final(self).tabs@ == old(self).tabs@.update(old(self).active_tab as int, *final(r)),
            final(self).search == old(self).search,
    {
        let i = self.active_tab;
        &mut self.tabs[i]
    }

    /// Pushes `snapshot` on the active document's undo stack (see
    /// `Document::push_snapshot`).
    pub fn push_snapshot(&mut self, snapshot: crate::document::TextSnapshot)
        requires
            old(self).wf(),
            crate::document::snapshot_valid(snapshot),
        ensures
            final(self).only_active_changed(*old(self)),
            final(self).search == old(self).search,
            final(self).active().undo_stack@ == crate::history::bounded_push(
                old(self).active().undo_stack@,
                snapshot,
                old(self).active().max_undo as nat,
            ),
            final(self).active().content == old(self).active().content,
            final(self).active().redo_stack == old(self).active().redo_stack,
            final(self).active().is_modified == old(self).active().is_modified,
            final(self).active().last_edit_time == old(self).active().last_edit_time,
            crate::document::same_file_facts(old(self).active(), final(self).active()),
    {
        let i = self.active_tab;
        proof {
            crate::document::lemma_all_valid_bounded_push(
                old(self).active().undo_stack@,
                snapshot,
                old(self).active().max_undo as nat,
            );
        }
        self.tabs[i].push_snapshot(snapshot);
        proof {
            self.lemma_only_active(*old(self));
        }
    }

    /// Boundary snapshot of the active document (see `Document::save_snapshot`).
    pub fn save_snapshot(&mut self)
        requires
            old(self).wf(),
        ensures
            final(self).only_active_changed(*old(self)),
            final(self).search == old(self).search,
            crate::document::snapshot_post(old(self).active(), final(self).active()),
    {
        let i = self.active_tab;
        self.tabs[i].save_snapshot();
        proof {
            self.lemma_only_active(*old(self));
        }
    }

    /// Opens a new empty tab and makes it active.
    pub fn new_tab(&mut self)
        requires
            old(self).wf(),
        ensures
            final(self).wf(),
            final(self).tabs@ == old(self).tabs@.push(final(self).tabs@.last()),
            final(self).tabs.len() == old(self).tabs.len() + 1,
            final(self).active_tab == old(self).tabs.len(),
            is_fresh(final(self).active()),
            final(self).search == old(self).search,
    {
        let d = Document::new();
        self.tabs.push(d);
        self.active_tab = self.tabs.len() - 1;
        assert forall|i: int| 0 <= i < self.tabs.len() implies (#[trigger] self.tabs[i]).wf() by {
            if i < old(self).tabs.len() {
                assert(self.tabs[i] == old(self).tabs[i]);
            }
        }
    }

    /// Removes tab `index`. The last remaining tab is never removed: it is
    /// reset to an empty, unmodified, untitled document with no history. The
    /// active tab keeps pointing at the same document where it can; when it
    /// was the removed one it becomes the next one (the last one at the end).
    pub fn remove_tab(&mut self, index: usize)
        requires
            old(self).wf(),
            index < old(self).tabs.len(),
        ensures
            tab_removed(*old(self), *final(self), index as int),
    {
        if self.tabs.len() <= 1 {
            self.tabs.clear();
            self.tabs.push(Document::new());
            self.active_tab = 0;
        } else {
            self.tabs.remove(index);
            if self.active_tab >= self.tabs.len() {
                self.active_tab = self.tabs.len() - 1;
            } else if self.active_tab > index {
                self.active_tab = self.active_tab - 1;
            }
            assert forall|i: int| 0 <= i < self.tabs.len() implies (#[trigger] self.tabs[i]).wf() by {
                if i < index {
                    assert(self.tabs[i] == old(self).tabs[i]);
                } else {
                    assert(self.tabs[i] == old(self).tabs[i + 1]);
                }
            }
        }
    }

    /// A request to close tab `index`: ignored for an index that names no
    /// tab; deferred to a confirmation when the tab holds unsaved changes;
    /// otherwise the tab is removed (see `remove_tab`).
    pub fn close_tab(&mut self, index: usize) -> (r: CloseOutcome)
        requires
            old(self).wf(),
        ensures
            final(self).wf(),
            index >= old(self).tabs.len() ==> r == CloseOutcome::Ignored && *final(self) == *old(self),
            index < old(self).tabs.len() && old(self).tabs[index as int].is_modified ==> r
                == CloseOutcome::NeedsConfirmation && *final(self) == *old(self),
            index < old(self).tabs.len() && !old(self).tabs[index as int].is_modified ==> r
                == CloseOutcome::Closed && tab_removed(*old(self), *final(self), index as int),
    {
        if index >= self.tabs.len() {
            return CloseOutcome::Ignored;
        }
        if self.tabs[index].is_modified {
            CloseOutcome::NeedsConfirmation
        } else {
            self.remove_tab(index);
            CloseOutcome::Closed
        }
    }

    /// The answer to a close confirmation: removes tab `index` when the user
    /// confirmed and the index still names a tab.
    pub fn confirm_close_tab(&mut self, confirmed: bool, index: usize)
        requires
            old(self).wf(),
        ensures
            final(self).wf(),
            !(confirmed && index < old(self).tabs.len()) ==> *final(self) == *old(self),
            confirmed && index < old(self).tabs.len() ==> tab_removed(
                *old(self),
                *final(self),
                index as int,
            ),
    {
        if confirmed && index < self.tabs.len() {
            self.remove_tab(index);
        }
    }

    /// Makes tab `index` active and restarts the search from the top; an
    /// index that names no tab changes nothing.
    pub fn switch_tab(&mut self, index: usize)
        requires
            old(self).wf(),
        ensures
            final(self).wf(),
            index < old(self).tabs.len() ==> final(self).active_tab == index
                && final(self).search.find_cursor == 0 && final(self).tabs == old(self).tabs
                && same_queries(old(self).search, final(self).search) && same_ui(
                *old(self),
                *final(self),
            ),
            index >= old(self).tabs.len() ==> *final(self) == *old(self),
    {
        if index < self.tabs.len() {
            self.active_tab = index;
            self.search.find_cursor = 0;
        }
    }

    /// Activates the next tab, wrapping to the first.
    pub fn next_tab(&mut self)
        requires
            old(self).wf(),
        ensures
            final(self).wf(),
            final(self).active_tab == (if old(self).active_tab + 1 < old(self).tabs.len() {
                old(self).active_tab + 1
            } else {
                0
            }),
            final(self).tabs == old(self).tabs,
            final(self).search.find_cursor == 0,
            same_queries(old(self).search, final(self).search),
            same_ui(*old(self), *final(self)),
    {
        let next = if self.active_tab + 1 < self.tabs.len() {
            self.active_tab + 1
        } else {
            0
        };
        self.active_tab = next;
        self.search.find_cursor = 0;
    }

    /// Activates the previous tab, wrapping to the last.
    pub fn previous_tab(&mut self)
        requires
            old(self).wf(),
        ensures
            final(self).wf(),
            final(self).active_tab == (if old(self).active_tab == 0 {
                old(self).tabs.len() - 1
            } else {
                old(self).active_tab - 1
            }),
            final(self).tabs == old(self).tabs,
            final(self).search.find_cursor == 0,
            same_queries(old(self).search, final(self).search),
            same_ui(*old(self), *final(self)),
    {
        self.active_tab = if self.active_tab == 0 {
            self.tabs.len() - 1
        } else {
            self.active_tab - 1
        };
        self.search.find_cursor = 0;
    }

    /// Only the active document may have changed, and it is still well formed.
    pub open spec fn only_active_changed(&self, old_self: Notepad) -> bool {
        &&& self.wf()
        &&& self.active_tab == old_self.active_tab
        &&& self.tabs.len() == old_self.tabs.len()
        &&& self.active_menu == old_self.active_menu
        &&& self.show_context_menu == old_self.show_context_menu
        &&& self.show_find == old_self.show_find
        &&& self.show_replace == old_self.show_replace
        &&& self.show_goto == old_self.show_goto
        &&& self.goto_input == old_self.goto_input
        &&& self.dark_mode == old_self.dark_mode
        &&& self.word_wrap == old_self.word_wrap
        &&& forall|i: int|
            0 <= i < self.tabs.len() && i != self.active_tab ==> #[trigger] self.tabs[i]
                == old_self.tabs[i]
    }

    /// Undo in the active document (see `Document::undo`).
    pub fn undo(&mut self)
        requires
            old(self).wf(),
        ensures
            final(self).only_active_changed(*old(self)),
            crate::document::undo_post(old(self).active(), final(self).active()),
            final(self).search == old(self).search,
    {
        let i = self.active_tab;
        self.tabs[i].undo();
        proof {
            self.lemma_only_active(*old(self));
        }
    }

    /// Redo in the active document (see `Document::redo`).
    pub fn redo(&mut self)
        requires
            old(self).wf(),
        ensures
            final(self).only_active_changed(*old(self)),
            crate::document::redo_post(old(self).active(), final(self).active()),
            final(self).search == old(self).search,
    {
        let i = self.active_tab;
        self.tabs[i].redo();
        proof {
            self.lemma_only_active(*old(self));
        }
    }

    proof fn lemma_only_active(&self, old_self: Notepad)
        requires
            old_self.wf(),
            self.active_tab == old_self.active_tab,
            self.tabs@ == old_self.tabs@.update(
                old_self.active_tab as int,
                self.tabs[self.active_tab as int],
            ),
            self.tabs[self.active_tab as int].wf(),
            self.active_menu == old_self.active_menu,
            self.show_context_menu == old_self.show_context_menu,
            self.show_find == old_self.show_find,
            self.show_replace == old_self.show_replace,
            self.show_goto == old_self.show_goto,
            self.goto_input == old_self.goto_input,
            self.dark_mode == old_self.dark_mode,
            self.word_wrap == old_self.word_wrap,
        ensures
            self.only_active_changed(old_self),
    {
        assert forall|i: int| 0 <= i < self.tabs.len() implies (#[trigger] self.tabs[i]).wf() by {
            if i != self.active_tab {
                assert(self.tabs[i] == old_self.tabs[i]);
            }
        }
    }

    /// A typed edit at time `now` in the active document (see
    /// `Document::apply_edit`).
    pub fn apply_edit(&mut self, edit: Edit, now: u64)
        requires
            old(self).wf(),
            old(self).active().content.view_text().len() + edit.inserted_len() <= usize::MAX,
        ensures
            final(self).only_active_changed(*old(self)),
            final(self).active().content.view_text() == edit_spec(old(self).active().content, edit).0,
            final(self).active().content.view_cursor() == edit_spec(
                old(self).active().content,
                edit,
            ).1,
            final(self).active().is_modified,
            final(self).active().status_message is None,
            final(self).active().last_edit_time == Some(now),
            final(self).active().history().undo == (if old(self).active().starts_batch(now) {
                crate::history::bounded_push(
                    old(self).active().history().undo,
                    old(self).active().history().text,
                    old(self).active().history().max,
                )
            } else {
                old(self).active().history().undo
            }),
            old(self).active().starts_batch(now) ==> final(self).active().history().redo.len()
                == 0,
            !old(self).active().starts_batch(now) ==> final(self).active().history().redo == old(
                self,
            ).active().history().redo,
            final(self).search == old(self).search,
    {
        let i = self.active_tab;
        self.tabs[i].apply_edit(edit, now);
        proof {
            self.lemma_only_active(*old(self));
        }
    }

    /// The active document takes over text typed into an editing widget
    /// (see `Document::take_typed_text`).
    pub fn take_typed_text(&mut self, text: &str, line: usize, col: usize, now: u64)
        requires
            old(self).wf(),
        ensures
            final(self).only_active_changed(*old(self)),
            final(self).active().content.view_text() == text@,
            final(self).active().content.view_cursor() == crate::document::navigate_spec(
                text@,
                line as int,
                col as int,
            ),
            final(self).active().is_modified,
            final(self).search == old(self).search,
    {
        let i = self.active_tab;
        self.tabs[i].take_typed_text(text, line, col, now);
        proof {
            self.lemma_only_active(*old(self));
        }
    }

    /// Moves the cursor of the active document to `line`, `col` (see
    /// `Document::navigate_to`), dropping the selection.
    pub fn move_cursor_to(&mut self, line: usize, col: usize)
        requires
            old(self).wf(),
        ensures
            final(self).only_active_changed(*old(self)),
            final(self).active().content.view_text() == old(self).active().content.view_text(),
            final(self).active().content.view_cursor() == crate::document::navigate_spec(
                old(self).active().content.view_text(),
                line as int,
                col as int,
            ),
            final(self).active().content.view_anchor() is None,
            final(self).search == old(self).search,
    {
        let i = self.active_tab;
        self.tabs[i].navigate_to(line, col);
        proof {
            self.lemma_only_active(*old(self));
        }
    }

    /// Selects, in the active document, from `anchor_line`, `anchor_col` to
    /// `line`, `col` (each placed as `Document::navigate_to` places it), the
    /// cursor at the second.
    pub fn select_between(&mut self, anchor_line: usize, anchor_col: usize, line: usize, col: usize)
        requires
            old(self).wf(),
        ensures
            final(self).only_active_changed(*old(self)),
            final(self).active().content.view_text() == old(self).active().content.view_text(),
            final(self).active().content.view_anchor() == Some(
                crate::document::navigate_spec(
                    old(self).active().content.view_text(),
                    anchor_line as int,
                    anchor_col as int,
                ),
            ),
            final(self).active().content.view_cursor() == crate::document::navigate_spec(
                old(self).active().content.view_text(),
                line as int,
                col as int,
            ),
            final(self).search == old(self).search,
    {
        let i = self.active_tab;
        self.tabs[i].navigate_to(line, col);
        let target = self.tabs[i].content.cursor();
        self.tabs[i].navigate_to(anchor_line, anchor_col);
        self.tabs[i].content.select_to(target);
        assert(self.tabs@ =~= old(self).tabs@.update(i as int, self.tabs[i as int]));
        proof {
            self.lemma_only_active(*old(self));
        }
    }

    /// Inserts `text` (pasted, or a date) at the cursor of the active
    /// document as its own undo step.
    pub fn insert_text(&mut self, text: String)
        requires
            old(self).wf(),
            old(self).active().content.view_text().len() + text@.len() <= usize::MAX,
        ensures
            final(self).only_active_changed(*old(self)),
            final(self).active().content.view_text() == edit_spec(
                old(self).active().content,
                Edit::Paste(text),
            ).0,
            final(self).active().content.view_cursor() == edit_spec(
                old(self).active().content,
                Edit::Paste(text),
            ).1,
            crate::document::pushed_current(old(self).active(), final(self).active().undo_stack@),
            final(self).active().redo_stack@.len() == 0,
            final(self).active().history().undo == crate::history::bounded_push(
                old(self).active().history().undo,
                old(self).active().history().text,
                old(self).active().history().max,
            ),
            final(self).active().is_modified,
            final(self).active().status_message is None,
            crate::document::same_file_facts(old(self).active(), final(self).active()),
            final(self).search == old(self).search,
    {
        let i = self.active_tab;
        self.tabs[i].save_snapshot();
        proof {
            crate::history::lemma_bounded_push_len(
                old(self).active().history().undo,
                old(self).active().history().text,
                old(self).active().history().max,
            );
        }
        self.tabs[i].content.perform(Edit::Paste(text));
        self.tabs[i].is_modified = true;
        self.tabs[i].status_message = None;
        self.tabs[i].update_stats_cache();
        assert(self.tabs@ =~= old(self).tabs@.update(i as int, self.tabs[i as int]));
        proof {
            self.lemma_only_active(*old(self));
        }
    }

    /// Deletes the selection of the active document as its own undo step
    /// (the second half of a cut, once the clipboard holds the text).
    pub fn delete_selection(&mut self)
        requires
            old(self).wf(),
        ensures
            final(self).only_active_changed(*old(self)),
            final(self).active().content.view_text() == edit_spec(
                old(self).active().content,
                Edit::Backspace,
            ).0,
            final(self).active().content.view_cursor() == edit_spec(
                old(self).active().content,
                Edit::Backspace,
            ).1,
            crate::document::pushed_current(old(self).active(), final(self).active().undo_stack@),
            final(self).active().redo_stack@.len() == 0,
            final(self).active().is_modified,
            final(self).active().status_message is None,
            crate::document::same_file_facts(old(self).active(), final(self).active()),
            final(self).search == old(self).search,
    {
        let i = self.active_tab;
        self.tabs[i].save_snapshot();
        self.tabs[i].content.backspace();
        self.tabs[i].is_modified = true;
        self.tabs[i].status_message = None;
        self.tabs[i].update_stats_cache();
        assert(self.tabs@ =~= old(self).tabs@.update(i as int, self.tabs[i as int]));
        proof {
            self.lemma_only_active(*old(self));
        }
    }

    /// The selected text of the active document, if any.
    pub fn selected_text(&self) -> (r: Option<String>)
        requires
            self.wf(),
        ensures
            r matches Some(t) ==> t@ == self.active().content.view_text().subrange(
                self.active().content.selection_range().0,
                self.active().content.selection_range().1,
            ),
            r is Some <==> self.active().content.selection_range().0
                < self.active().content.selection_range().1,
    {
        self.tabs[self.active_tab].content.selection()
    }

    /// Selects the whole text of the active document.
    pub fn select_all(&mut self)
        requires
            old(self).wf(),
        ensures
            final(self).only_active_changed(*old(self)),
            final(self).active().content.view_text() == old(self).active().content.view_text(),
            final(self).active().content.selection_range() == (
                0int,
                old(self).active().content.view_text().len() as int,
            ),
    {
        let i = self.active_tab;
        self.tabs[i].content.select_all();
        proof {
            self.lemma_only_active(*old(self));
        }
    }

    /// Forward search in the active document (see `Document::find_next`).
    pub fn find_next(&mut self)
        requires
            old(self).wf(),
        ensures
            final(self).only_active_changed(*old(self)),
            find_next_post(old(self).active(), final(self).active(), old(self).search, final(self).search),
    {
        let i = self.active_tab;
        self.tabs[i].find_next(&mut self.search);
        proof {
            self.lemma_only_active(*old(self));
        }
    }

    /// Backward search in the active document (see `Document::find_previous`).
    pub fn find_previous(&mut self)
        requires
            old(self).wf(),
        ensures
            final(self).only_active_changed(*old(self)),
            find_previous_post(old(self).active(), final(self).active(), old(self).search, final(self).search),
    {
        let i = self.active_tab;
        self.tabs[i].find_previous(&mut self.search);
        proof {
            self.lemma_only_active(*old(self));
        }
    }

    /// Replace-and-advance in the active document (see `Document::replace_one`).
    pub fn replace_one(&mut self)
        requires
            old(self).wf(),
            old(self).active().content.view_text().len() + old(self).search.replace_query@.len()
                <= usize::MAX,
        ensures
            final(self).only_active_changed(*old(self)),
            replace_one_post(old(self).active(), final(self).active(), old(self).search, final(self).search),
    {
        let i = self.active_tab;
        self.tabs[i].replace_one(&mut self.search);
        proof {
            self.lemma_only_active(*old(self));
        }
    }

    /// Replace-all in the active document (see `Document::replace_all`);
    /// returns whether the text changed.
    pub fn replace_all(&mut self) -> (changed: bool)
        requires
            old(self).wf(),
        ensures
            final(self).only_active_changed(*old(self)),
            final(self).search == old(self).search,
            replace_all_post(old(self).active(), final(self).active(), old(self).search, changed),
    {
        let i = self.active_tab;
        let changed = self.tabs[i].replace_all(&self.search);
        proof {
            self.lemma_only_active(*old(self));
        }
        changed
    }
}

} // verus!
