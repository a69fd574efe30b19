//! Operations the session receives, by category, and the decisions it takes
//! on them. Work that needs the outside world (clipboard, clock, dialogs,
//! focus and scrolling of widgets) is handed back to the caller as a request.
use vstd::prelude::*;

use crate::buffer::Edit;
use crate::document::{navigate_spec, Document};
use crate::history::{redo_model, undo_model};
use crate::search::{find_next_post, find_previous_post, replace_all_post, replace_one_post};
use crate::session::{is_fresh, same_queries, same_ui, tab_removed, CloseOutcome, Menu, Notepad};

verus! {

/// Edit-menu operations.
#[derive(Debug, Clone, Copy, PartialEq, Eq, Structural)]
pub enum EditMsg {
    Copy,
    Cut,
    Paste,
    SelectAll,
    Undo,
    Redo,
    InsertDateTime,
}

/// Search-menu and find-bar operations.
#[derive(Debug, Clone)]
pub enum SearchMsg {
    OpenFind,
    OpenReplace,
    CloseFind,
    FindQueryChanged(String),
    ReplaceQueryChanged(String),
    FindNext,
    FindPrevious,
    ReplaceOne,
    ReplaceAll,
    OpenGoTo,
    CloseGoTo,
    GoToInputChanged(String),
    GoToLineSubmit,
    ToggleCaseSensitive,
    ToggleRegex,
}

/// View-menu operations.
#[derive(Debug, Clone, Copy, PartialEq, Eq, Structural)]
pub enum ViewMsg {
    ZoomIn,
    ZoomOut,
    ZoomReset,
    ToggleDarkMode,
    ToggleWordWrap,
}

/// Menu-bar operations.
#[derive(Debug, Clone, Copy, PartialEq, Eq, Structural)]
pub enum MenuMsg {
    Toggle(Menu),
    Hover(Menu),
    CloseAll,
    ShowContext,
}

/// Follow-up work for the widget layer after a search operation.
#[derive(Debug, Clone, Copy, PartialEq, Eq, Structural)]
pub enum UiAction {
    Nothing,
    FocusFind,
    FocusGoTo,
    SyncLineNumbers,
}

/// Follow-up work with the clipboard or the clock after an edit operation.
pub enum EditRequest {
    Nothing,
    /// Put the text on the clipboard.
    Copy(String),
    /// Put the text on the clipboard, then call `delete_selection`.
    Cut(String),
    /// Read the clipboard, then call `insert_text` with it.
    Paste,
    /// Format the current date and time, then call `insert_text` with it.
    DateTime,
}

/// File and tab operations.
#[derive(Debug, Clone)]
pub enum FileMsg {
    NewTab,
    CloseTab(usize),
    ConfirmCloseTabResult(bool, usize),
    SwitchTab(usize),
    Save,
    SaveAs,
    Open,
    SaveFileSelected(Option<String>),
    OpenFileSelected(Option<String>),
    CloseRequested,
    ConfirmCloseResult(bool),
    AutoSave,
}

/// Follow-up work with files, dialogs or the window after a file operation.
/// Answers come back as the file operation each variant names.
pub enum FileRequest {
    Nothing,
    /// Ask whether to discard the changes of tab `index`; answer with
    /// `ConfirmCloseTabResult`.
    ConfirmCloseTab(usize),
    /// Write the active document (`Document::encode_content`) to the path,
    /// then record it with `Notepad::mark_saved`.
    WriteActive(String),
    /// Ask for a path to save to; answer with `SaveFileSelected`.
    PickSavePath,
    /// Ask for a file to open; answer with `OpenFileSelected`.
    PickOpenPath,
    /// Read the file (after `open_policy`) and open it with `Notepad::open_file`.
    ReadFile(String),
    /// Ask whether to quit without saving; answer with `ConfirmCloseResult`.
    ConfirmQuit,
    /// Close the window.
    Quit,
    /// Write each of these tabs to its own path, going on past failures.
    WriteTabs(Vec<usize>),
}

/// Every operation the session receives.
#[derive(Debug, Clone)]
pub enum Message {
    /// A typed edit at a time in milliseconds.
    Typed(Edit, u64),
    File(FileMsg),
    Edit(EditMsg),
    Search(SearchMsg),
    View(ViewMsg),
    Menu(MenuMsg),
}

/// The follow-up work of an operation.
pub enum Effect {
    Nothing,
    Ui(UiAction),
    Edit(EditRequest),
    File(FileRequest),
}

/// Whether an operation leaves open menus as they are: menu operations
/// themselves, typing into the find, replace and go-to fields, and
/// auto-save; every other operation closes them.
pub open spec fn keeps_menus(msg: Message) -> bool {
    match msg {
        Message::Menu(_) => true,
        Message::Search(SearchMsg::FindQueryChanged(_)) => true,
        Message::Search(SearchMsg::ReplaceQueryChanged(_)) => true,
        Message::Search(SearchMsg::GoToInputChanged(_)) => true,
        Message::File(FileMsg::AutoSave) => true,
        _ => false,
    }
}

/// `n1` is `n0` with its menus closed, or `n0` itself when the operation
/// keeps them.
pub open spec fn menus_after(n0: Notepad, n1: Notepad, keep: bool) -> bool {
    if keep {
        n1 == n0
    } else {
        n1 == Notepad { active_menu: None, show_context_menu: false, ..n0 }
    }
}

/// The request a copy (or, with `cut`, a cut) makes of `d`: the selected
/// text when the selection is not empty, nothing otherwise.
pub open spec fn selection_request(d: Document, r: EditRequest, cut: bool) -> bool {
    let (lo, hi) = d.content.selection_range();
    if lo < hi {
        match r {
            EditRequest::Copy(t) => !cut && t@ == d.content.view_text().subrange(lo, hi),
            EditRequest::Cut(t) => cut && t@ == d.content.view_text().subrange(lo, hi),
            _ => false,
        }
    } else {
        r is Nothing
    }
}

/// The value of a decimal digit.
pub open spec fn digit_value(c: char) -> int {
    (c as u32) - ('0' as u32)
}

pub open spec fn is_digit(c: char) -> bool {
    '0' as u32 <= c as u32 && c as u32 <= '9' as u32
}

/// The number that the decimal digits `d` spell.
pub open spec fn digits_value(d: Seq<char>) -> int
    decreases d.len(),
{
    if d.len() == 0 {
        0
    } else {
        10 * digits_value(d.drop_last()) + digit_value(d.last())
    }
}

/// `s` without a leading `+`.
pub open spec fn unsigned_part(s: Seq<char>) -> Seq<char> {
    if s.len() > 0 && s[0] == '+' {
        s.skip(1)
    } else {
        s
    }
}

/// Every character of `d` is a decimal digit.
pub open spec fn all_digits(d: Seq<char>) -> bool {
    forall|i: int| 0 <= i < d.len() ==> is_digit(#[trigger] d[i])
}

/// What parsing `s` as a `usize` gives: an optional `+` sign, then one or
/// more decimal digits whose value fits.
pub open spec fn parse_usize_spec(s: Seq<char>) -> Option<int> {
    let d = unsigned_part(s);
    if d.len() == 0 || !all_digits(d) {
        None
    } else if digits_value(d) > usize::MAX {
        None
    } else {
        Some(digits_value(d))
    }
}

proof fn lemma_digits_value_prefix(d: Seq<char>, j: int)
    requires
        0 <= j <= d.len(),
        forall|i: int| 0 <= i < d.len() ==> is_digit(#[trigger] d[i]),
    ensures
        0 <= digits_value(d.take(j)) <= digits_value(d),
    decreases d.len() - j,
{
    if j < d.len() {
        lemma_digits_value_prefix(d, j + 1);
        assert(d.take(j + 1).drop_last() =~= d.take(j));
        assert(d.take(j + 1).last() == d[j]);
    } else {
        assert(d.take(j) =~= d);
        lemma_digits_value_nonneg(d);
    }
}

proof fn lemma_digits_value_nonneg(d: Seq<char>)
    requires
        forall|i: int| 0 <= i < d.len() ==> is_digit(#[trigger] d[i]),
    ensures
        digits_value(d) >= 0,
    decreases d.len(),
{
    if d.len() > 0 {
        assert forall|i: int| 0 <= i < d.drop_last().len() implies is_digit(
            #[trigger] d.drop_last()[i],
        ) by {
            assert(d.drop_last()[i] == d[i]);
        }
        lemma_digits_value_nonneg(d.drop_last());
    }
}

/// Parses a line number the way `usize::from_str` does (see `parse_usize_spec`).
pub fn parse_usize(s: &str) -> (r: Option<usize>)
    ensures
        match r {
            Some(n) => parse_usize_spec(s@) == Some(n as int),
            None => parse_usize_spec(s@) is None,
        },
{
    let chars = crate::text::chars_of(s);
    let start: usize = if chars.len() > 0 && chars[0] == '+' {
        1
    } else {
        0
    };
    let ghost d = unsigned_part(s@);
    assert(d =~= chars@.skip(start as int));
    if start >= chars.len() {
        return None;
    }
    let mut i: usize = start;
    let mut v: usize = 0;
    while i < chars.len()
        invariant
            chars@ == s@,
            d == chars@.skip(start as int),
            d == unsigned_part(s@),
            start <= i <= chars.len(),
            forall|j: int| 0 <= j < i - start ==> is_digit(#[trigger] d[j]),
            v == digits_value(d.take(i - start)),
        decreases chars.len() - i,
    {
        let c = chars[i];
        let u = c as u32;
        assert(d[i - start] == c);
        if u < 48 || u > 57 {
            assert(!is_digit(d[i - start]));
            assert(d.len() > 0);
            return None;
        }
        let dig = (u - 48) as usize;
        assert(digit_value(c) == dig);
        assert(is_digit(d[i - start]));
        assert(d.take(i - start + 1).drop_last() =~= d.take(i - start));
        assert(d.take(i - start + 1).last() == d[i - start]);
        if v > (usize::MAX - dig) / 10 {
            proof {
                assert(digits_value(d.take(i - start + 1)) > usize::MAX) by (nonlinear_arith)
                    requires
                        v > (usize::MAX - dig) / 10,
                        digits_value(d.take(i - start + 1)) == 10 * v + dig,
                        dig <= 9,
                ;
                let k = (i - start + 1) as int;
                let rest = d;
                // Every further character is either a non-digit (no number)
                // or a digit that only makes the value larger.
                if all_digits(rest) {
                    lemma_digits_value_prefix(rest, k);
                }
            }
            return None;
        }
        v = v * 10 + dig;
        i = i + 1;
    }
    assert(d.take(i - start) =~= d);
    Some(v)
}

/// What a search operation leaves and asks for (see `Notepad::handle_search`).
pub open spec fn search_post(n0: Notepad, n1: Notepad, msg: SearchMsg, r: UiAction) -> bool {
    match msg {
        SearchMsg::OpenFind => r == UiAction::FocusFind && n1.show_find
            && !n1.show_replace && !n1.show_goto && n1.tabs
            == n0.tabs && n1.search == n0.search,
        SearchMsg::OpenReplace => r == UiAction::FocusFind && n1.show_find
            && n1.show_replace && !n1.show_goto && n1.tabs
            == n0.tabs && n1.search == n0.search,
        SearchMsg::CloseFind => r == UiAction::Nothing && !n1.show_find
            && !n1.show_replace && n1.tabs == n0.tabs
            && n1.search == n0.search,
        SearchMsg::FindQueryChanged(q) => r == UiAction::Nothing
            && n1.search.find_query == q && n1.search.find_cursor == 0
            && n1.search.replace_query == n0.search.replace_query
            && n1.search.case_sensitive == n0.search.case_sensitive
            && n1.search.use_regex == n0.search.use_regex
            && n1.tabs == n0.tabs,
        SearchMsg::ReplaceQueryChanged(q) => r == UiAction::Nothing
            && n1.search.replace_query == q && n1.search.find_query
            == n0.search.find_query && n1.search.find_cursor == n0.search.find_cursor && n1.tabs == n0.tabs,
        SearchMsg::FindNext => r == UiAction::SyncLineNumbers && n1.only_active_changed(n0) && find_next_post(
            n0.active(),
            n1.active(),
            n0.search,
            n1.search,
        ),
        SearchMsg::FindPrevious => r == UiAction::SyncLineNumbers && n1.only_active_changed(n0) && find_previous_post(
            n0.active(),
            n1.active(),
            n0.search,
            n1.search,
        ),
        SearchMsg::ReplaceOne => r == UiAction::Nothing && n1.only_active_changed(n0) && replace_one_post(
            n0.active(),
            n1.active(),
            n0.search,
            n1.search,
        ),
        SearchMsg::ReplaceAll => r == UiAction::Nothing && n1.only_active_changed(n0) && n1.search == n0.search && exists|changed: bool|
            replace_all_post(
                n0.active(),
                n1.active(),
                n0.search,
                changed,
            ),
        SearchMsg::OpenGoTo => r == UiAction::FocusGoTo && n1.show_goto
            && !n1.show_find && !n1.show_replace
            && n1.goto_input@.len() == 0 && n1.tabs == n0.tabs,
        SearchMsg::CloseGoTo => r == UiAction::Nothing && !n1.show_goto
            && n1.tabs == n0.tabs,
        SearchMsg::GoToInputChanged(v) => r == UiAction::Nothing && n1.goto_input
            == v && n1.tabs == n0.tabs,
        SearchMsg::GoToLineSubmit => match parse_usize_spec(n0.goto_input@) {
            Some(n) => r == UiAction::SyncLineNumbers && !n1.show_goto
                && n1.tabs.len() == n0.tabs.len()
                && n1.search == n0.search
                && n1.active().content.view_text()
                == n0.active().content.view_text()
                && n1.active().content.view_cursor() == navigate_spec(
                n0.active().content.view_text(),
                if n > 0 {
                    n - 1
                } else {
                    0
                },
                0,
            ),
            None => r == UiAction::Nothing && n1.tabs == n0.tabs,
        },
        SearchMsg::ToggleCaseSensitive => r == UiAction::Nothing
            && n1.search.case_sensitive == !n0.search.case_sensitive
            && n1.search.find_cursor == 0 && n1.search.find_query
            == n0.search.find_query && n1.search.replace_query == n0.search.replace_query
            && n1.search.use_regex == n0.search.use_regex && n1.tabs == n0.tabs,
        SearchMsg::ToggleRegex => r == UiAction::Nothing && n1.search.use_regex
            == !n0.search.use_regex && n1.search.find_cursor == 0
            && n1.search.find_query == n0.search.find_query
            && n1.search.replace_query == n0.search.replace_query
            && n1.search.case_sensitive == n0.search.case_sensitive
            && n1.tabs == n0.tabs,
    }
}

/// What an edit operation leaves and asks for (see `Notepad::handle_edit`).
pub open spec fn edit_post(n0: Notepad, n1: Notepad, msg: EditMsg, r: EditRequest) -> bool {
    match msg {
        EditMsg::Copy => n1 == n0 && selection_request(
            n0.active(),
            r,
            false,
        ),
        EditMsg::Cut => n1 == n0 && selection_request(
            n0.active(),
            r,
            true,
        ),
        EditMsg::Paste => r is Paste && n1 == n0,
        EditMsg::InsertDateTime => r is DateTime && n1 == n0,
        EditMsg::SelectAll => r is Nothing && n1.only_active_changed(n0)
            && n1.active().content.view_text()
            == n0.active().content.view_text()
            && n1.active().content.selection_range() == (
            0int,
            n0.active().content.view_text().len() as int,
        ),
        EditMsg::Undo => r is Nothing && n1.only_active_changed(n0)
            && n1.active().history() == undo_model(n0.active().history()),
        EditMsg::Redo => r is Nothing && n1.only_active_changed(n0)
            && n1.active().history() == redo_model(n0.active().history()),
    }
}

/// What a file operation leaves and asks for (see `Notepad::handle_file`).
pub open spec fn file_post(n0: Notepad, n1: Notepad, msg: FileMsg, r: FileRequest) -> bool {
    match msg {
        FileMsg::NewTab => r is Nothing && n1.wf() && n1.tabs@ == n0.tabs@.push(n1.tabs@.last())
            && n1.active_tab == n0.tabs.len() && is_fresh(n1.active()) && n1.search == n0.search,
        FileMsg::CloseTab(i) => if i >= n0.tabs.len() {
            r is Nothing && n1 == n0
        } else if n0.tabs[i as int].is_modified {
            r == FileRequest::ConfirmCloseTab(i) && n1 == n0
        } else {
            r is Nothing && tab_removed(n0, n1, i as int)
        },
        FileMsg::ConfirmCloseTabResult(yes, i) => r is Nothing && if yes && i < n0.tabs.len() {
            tab_removed(n0, n1, i as int)
        } else {
            n1 == n0
        },
        FileMsg::SwitchTab(i) => r is Nothing && if i < n0.tabs.len() {
            n1.active_tab == i && n1.search.find_cursor == 0 && n1.tabs == n0.tabs
                && same_queries(n0.search, n1.search) && same_ui(n0, n1)
        } else {
            n1 == n0
        },
        FileMsg::Save => n1 == n0 && match n0.active().file_path {
            Some(p) => r == FileRequest::WriteActive(p),
            None => r is PickSavePath,
        },
        FileMsg::SaveAs => r is PickSavePath && n1 == n0,
        FileMsg::Open => r is PickOpenPath && n1 == n0,
        FileMsg::SaveFileSelected(p) => n1 == n0 && match p {
            Some(p) => r == FileRequest::WriteActive(p),
            None => r is Nothing,
        },
        FileMsg::OpenFileSelected(p) => n1 == n0 && match p {
            Some(p) => r == FileRequest::ReadFile(p),
            None => r is Nothing,
        },
        FileMsg::CloseRequested => n1 == n0 && if exists|i: int|
            0 <= i < n0.tabs.len() && (#[trigger] n0.tabs[i]).is_modified {
            r is ConfirmQuit
        } else {
            r is Quit
        },
        FileMsg::ConfirmCloseResult(yes) => n1 == n0 && if yes {
            r is Quit
        } else {
            r is Nothing
        },
        FileMsg::AutoSave => n1 == n0 && match r {
            FileRequest::WriteTabs(v) => forall|i: int|
                0 <= i < n0.tabs.len() ==> (v@.contains(i as usize) <==> (
                #[trigger] n0.tabs[i]).is_modified
                    && n0.tabs[i].file_path is Some),
            _ => false,
        },
    }
}

impl Notepad {
    /// Applies a search operation and says what the widget layer should do
    /// next. Changing the query or a toggle restarts the search from the
    /// top; submitting a go-to line moves the cursor to the start of that
    /// (one-based) line when the input is a number.
    pub fn handle_search(&mut self, msg: SearchMsg) -> (r: UiAction)
        requires
            old(self).wf(),
            old(self).active().content.view_text().len() + old(self).search.replace_query@.len()
                <= usize::MAX,
        ensures
            final(self).wf(),
            final(self).tabs.len() == old(self).tabs.len(),
            final(self).active_tab == old(self).active_tab,
            search_post(*old(self), *final(self), msg, r),
    {
        match msg {
            SearchMsg::OpenFind => {
                self.show_find = true;
                self.show_replace = false;
                self.show_goto = false;
                UiAction::FocusFind
            },
            SearchMsg::OpenReplace => {
                self.show_find = true;
                self.show_replace = true;
                self.show_goto = false;
                UiAction::FocusFind
            },
            SearchMsg::CloseFind => {
                self.show_find = false;
                self.show_replace = false;
                UiAction::Nothing
            },
            SearchMsg::FindQueryChanged(q) => {
                self.search.find_query = q;
                self.search.find_cursor = 0;
                UiAction::Nothing
            },
            SearchMsg::ReplaceQueryChanged(q) => {
                self.search.replace_query = q;
                UiAction::Nothing
            },
            SearchMsg::FindNext => {
                self.find_next();
                UiAction::SyncLineNumbers
            },
            SearchMsg::FindPrevious => {
                self.find_previous();
                UiAction::SyncLineNumbers
            },
            SearchMsg::ReplaceOne => {
                self.replace_one();
                UiAction::Nothing
            },
            SearchMsg::ReplaceAll => {
                self.replace_all();
                UiAction::Nothing
            },
            SearchMsg::OpenGoTo => {
                self.show_goto = true;
                self.show_find = false;
                self.show_replace = false;
                self.goto_input = String::new();
                UiAction::FocusGoTo
            },
            SearchMsg::CloseGoTo => {
                self.show_goto = false;
                UiAction::Nothing
            },
            SearchMsg::GoToInputChanged(v) => {
                self.goto_input = v;
                UiAction::Nothing
            },
            SearchMsg::GoToLineSubmit => {
                match parse_usize(self.goto_input.as_str()) {
                    Some(n) => {
                        let target = if n > 0 {
                            n - 1
                        } else {
                            0
                        };
                        self.go_to_line(target);
                        self.show_goto = false;
                        UiAction::SyncLineNumbers
                    },
                    None => UiAction::Nothing,
                }
            },
            SearchMsg::ToggleCaseSensitive => {
                self.search.case_sensitive = !self.search.case_sensitive;
                self.search.find_cursor = 0;
                UiAction::Nothing
            },
            SearchMsg::ToggleRegex => {
                self.search.use_regex = !self.search.use_regex;
                self.search.find_cursor = 0;
                UiAction::Nothing
            },
        }
    }

    /// Moves the cursor of the active document to the start of line `line`
    /// (zero-based; the last line where `line` is beyond it).
    pub fn go_to_line(&mut self, line: usize)
        requires
            old(self).wf(),
        ensures
            final(self).only_active_changed(*old(self)),
            final(self).active().content.view_text() == old(self).active().content.view_text(),
            final(self).active().content.view_cursor() == crate::document::navigate_spec(
                old(self).active().content.view_text(),
                line as int,
                0,
            ),
            final(self).search == old(self).search,
    {
        let i = self.active_tab;
        self.tabs[i].navigate_to(line, 0);
        assert forall|j: int| 0 <= j < self.tabs.len() implies (#[trigger] self.tabs[j]).wf() by {
            if j != i {
                assert(self.tabs[j] == old(self).tabs[j]);
            }
        }
    }

    /// Applies an edit operation; what needs the clipboard or the clock is
    /// returned as a request (see `EditRequest`).
    pub fn handle_edit(&mut self, msg: EditMsg) -> (r: EditRequest)
        requires
            old(self).wf(),
        ensures
            final(self).wf(),
            final(self).tabs.len() == old(self).tabs.len(),
            final(self).active_tab == old(self).active_tab,
            edit_post(*old(self), *final(self), msg, r),
    {
        match msg {
            EditMsg::Copy => match self.selected_text() {
                Some(t) => EditRequest::Copy(t),
                None => EditRequest::Nothing,
            },
            EditMsg::Cut => match self.selected_text() {
                Some(t) => EditRequest::Cut(t),
                None => EditRequest::Nothing,
            },
            EditMsg::Paste => EditRequest::Paste,
            EditMsg::SelectAll => {
                self.select_all();
                EditRequest::Nothing
            },
            EditMsg::Undo => {
                self.undo();
                EditRequest::Nothing
            },
            EditMsg::Redo => {
                self.redo();
                EditRequest::Nothing
            },
            EditMsg::InsertDateTime => EditRequest::DateTime,
        }
    }

    /// Opens, switches or closes menus. Hovering switches menus only while
    /// one is open; showing the context menu closes the menu bar.
    pub fn handle_menu(&mut self, msg: MenuMsg)
        ensures
            final(self).tabs == old(self).tabs,
            final(self).active_tab == old(self).active_tab,
            final(self).search == old(self).search,
            final(self).active_menu == (match msg {
                MenuMsg::Toggle(m) => if old(self).active_menu == Some(m) {
                    None
                } else {
                    Some(m)
                },
                MenuMsg::Hover(m) => if old(self).active_menu is Some {
                    Some(m)
                } else {
                    None
                },
                MenuMsg::CloseAll => None,
                MenuMsg::ShowContext => None,
            }),
            final(self).show_context_menu == (match msg {
                MenuMsg::Hover(_) => old(self).show_context_menu,
                MenuMsg::ShowContext => true,
                _ => false,
            }),
    {
        match msg {
            MenuMsg::Toggle(menu) => {
                let same = match self.active_menu {
                    Some(m) => m == menu,
                    None => false,
                };
                if same {
                    self.active_menu = None;
                } else {
                    self.active_menu = Some(menu);
                }
                self.show_context_menu = false;
            },
            MenuMsg::Hover(menu) => {
                if self.active_menu.is_some() {
                    self.active_menu = Some(menu);
                }
            },
            MenuMsg::CloseAll => {
                self.active_menu = None;
                self.show_context_menu = false;
            },
            MenuMsg::ShowContext => {
                self.show_context_menu = true;
                self.active_menu = None;
            },
        }
    }

    /// Flips dark mode or word wrap; the zoom operations act on the font
    /// size, which the widget layer holds, and change nothing here.
    pub fn handle_view(&mut self, msg: ViewMsg)
        ensures
            final(self).tabs == old(self).tabs,
            final(self).search == old(self).search,
            final(self).active_tab == old(self).active_tab,
            final(self).dark_mode == (if msg == ViewMsg::ToggleDarkMode {
                !old(self).dark_mode
            } else {
                old(self).dark_mode
            }),
            final(self).word_wrap == (if msg == ViewMsg::ToggleWordWrap {
                !old(self).word_wrap
            } else {
                old(self).word_wrap
            }),
    {
        match msg {
            ViewMsg::ToggleDarkMode => {
                self.dark_mode = !self.dark_mode;
            },
            ViewMsg::ToggleWordWrap => {
                self.word_wrap = !self.word_wrap;
            },
            _ => {},
        }
    }

    /// Applies a file or tab operation; what needs files, dialogs or the
    /// window is returned as a request (see `FileRequest`).
    pub fn handle_file(&mut self, msg: FileMsg) -> (r: FileRequest)
        requires
            old(self).wf(),
        ensures
            final(self).wf(),
            file_post(*old(self), *final(self), msg, r),
    {
        match msg {
            FileMsg::NewTab => {
                self.new_tab();
                FileRequest::Nothing
            },
            FileMsg::CloseTab(index) => match self.close_tab(index) {
                CloseOutcome::NeedsConfirmation => FileRequest::ConfirmCloseTab(index),
                _ => FileRequest::Nothing,
            },
            FileMsg::ConfirmCloseTabResult(confirmed, index) => {
                self.confirm_close_tab(confirmed, index);
                FileRequest::Nothing
            },
            FileMsg::SwitchTab(index) => {
                self.switch_tab(index);
                FileRequest::Nothing
            },
            FileMsg::Save => match &self.tabs[self.active_tab].file_path {
                Some(p) => FileRequest::WriteActive(p.clone()),
                None => FileRequest::PickSavePath,
            },
            FileMsg::SaveAs => FileRequest::PickSavePath,
            FileMsg::Open => FileRequest::PickOpenPath,
            FileMsg::SaveFileSelected(path) => match path {
                Some(p) => FileRequest::WriteActive(p),
                None => FileRequest::Nothing,
            },
            FileMsg::OpenFileSelected(path) => match path {
                Some(p) => FileRequest::ReadFile(p),
                None => FileRequest::Nothing,
            },
            FileMsg::CloseRequested => {
                if self.any_modified() {
                    FileRequest::ConfirmQuit
                } else {
                    FileRequest::Quit
                }
            },
            FileMsg::ConfirmCloseResult(confirmed) => {
                if confirmed {
                    FileRequest::Quit
                } else {
                    FileRequest::Nothing
                }
            },
            FileMsg::AutoSave => {
                let targets = self.autosave_targets();
                FileRequest::WriteTabs(targets)
            },
        }
    }

    /// Routes an operation to its handler after closing open menus (unless
    /// the operation keeps them, see `keeps_menus`), and returns its
    /// follow-up work.
    pub fn update(&mut self, msg: Message) -> (r: Effect)
        requires
            old(self).wf(),
            old(self).active().content.view_text().len() + old(self).search.replace_query@.len()
                <= usize::MAX,
            msg matches Message::Typed(e, _) ==> old(self).active().content.view_text().len()
                + e.inserted_len() <= usize::MAX,
        ensures
            final(self).wf(),
            !keeps_menus(msg) ==> final(self).active_menu is None && (!(msg is Menu)
                ==> !final(self).show_context_menu),
            match msg {
                Message::Typed(e, now) => r is Nothing && final(self).active().content.view_text()
                    == crate::buffer::edit_spec(old(self).active().content, e).0
                    && final(self).active().content.view_cursor() == crate::buffer::edit_spec(
                    old(self).active().content,
                    e,
                ).1 && final(self).active().is_modified && final(self).active().last_edit_time
                    == Some(now) && final(self).active().history().undo == (if old(
                    self,
                ).active().starts_batch(now) {
                    crate::history::bounded_push(
                        old(self).active().history().undo,
                        old(self).active().history().text,
                        old(self).active().history().max,
                    )
                } else {
                    old(self).active().history().undo
                }),
                Message::File(m) => match r {
                    Effect::File(q) => exists|mid: Notepad|
                        #[trigger] file_post(*old(self), mid, m, q) && menus_after(
                            mid,
                            *final(self),
                            keeps_menus(msg),
                        ),
                    _ => false,
                },
                Message::Edit(m) => match r {
                    Effect::Edit(q) => exists|mid: Notepad|
                        #[trigger] edit_post(*old(self), mid, m, q) && menus_after(
                            mid,
                            *final(self),
                            keeps_menus(msg),
                        ),
                    _ => false,
                },
                Message::Search(m) => match r {
                    Effect::Ui(q) => exists|mid: Notepad|
                        #[trigger] search_post(*old(self), mid, m, q) && menus_after(
                            mid,
                            *final(self),
                            keeps_menus(msg),
                        ),
                    _ => false,
                },
                Message::View(m) => r is Nothing && final(self).tabs == old(self).tabs
                    && final(self).active_tab == old(self).active_tab && final(self).search == old(
                    self,
                ).search && final(self).dark_mode == (if m == ViewMsg::ToggleDarkMode {
                    !old(self).dark_mode
                } else {
                    old(self).dark_mode
                }) && final(self).word_wrap == (if m == ViewMsg::ToggleWordWrap {
                    !old(self).word_wrap
                } else {
                    old(self).word_wrap
                }),
                Message::Menu(m) => r is Nothing && final(self).tabs == old(self).tabs
                    && final(self).active_tab == old(self).active_tab && final(self).search == old(
                    self,
                ).search && final(self).active_menu == (match m {
                    MenuMsg::Toggle(x) => if old(self).active_menu == Some(x) {
                        None
                    } else {
                        Some(x)
                    },
                    MenuMsg::Hover(x) => if old(self).active_menu is Some {
                        Some(x)
                    } else {
                        None
                    },
                    MenuMsg::CloseAll => None,
                    MenuMsg::ShowContext => None,
                }) && final(self).show_context_menu == (match m {
                    MenuMsg::Hover(_) => old(self).show_context_menu,
                    MenuMsg::ShowContext => true,
                    _ => false,
                }),
            },
    {
        let keep = match &msg {
            Message::Menu(_) => true,
            Message::Search(SearchMsg::FindQueryChanged(_)) => true,
            Message::Search(SearchMsg::ReplaceQueryChanged(_)) => true,
            Message::Search(SearchMsg::GoToInputChanged(_)) => true,
            Message::File(FileMsg::AutoSave) => true,
            _ => false,
        };
        assert(keep == keeps_menus(msg));
        let effect = match msg {
            Message::Typed(e, now) => {
                self.apply_edit(e, now);
                Effect::Nothing
            },
            Message::File(m) => {
                let q = self.handle_file(m);
                let ghost mid = *self;
                assert(file_post(*old(self), mid, m, q));
                Effect::File(q)
            },
            Message::Edit(m) => {
                let q = self.handle_edit(m);
                let ghost mid = *self;
                assert(edit_post(*old(self), mid, m, q));
                Effect::Edit(q)
            },
            Message::Search(m) => {
                let q = self.handle_search(m);
                let ghost mid = *self;
                assert(search_post(*old(self), mid, m, q));
                Effect::Ui(q)
            },
            Message::View(m) => {
                self.handle_view(m);
                Effect::Nothing
            },
            Message::Menu(m) => {
                self.handle_menu(m);
                Effect::Nothing
            },
        };
        if !keep {
            self.active_menu = None;
            self.show_context_menu = false;
        }
        effect
    }
}

} // verus!
