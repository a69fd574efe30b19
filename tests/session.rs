use notepad_core::buffer::Edit;
use notepad_core::document::{
    choose_relocation, Document, Relocation, TextSnapshot, LARGE_FILE_UNDO_HISTORY,
    MAX_UNDO_HISTORY,
};
use notepad_core::encoding::TextEncoding;
use notepad_core::files::{open_policy, OpenPolicy};
use notepad_core::messages::{
    parse_usize, EditMsg, EditRequest, FileMsg, FileRequest, MenuMsg, SearchMsg, UiAction,
};
use notepad_core::persist::SessionData;
use notepad_core::session::{CloseOutcome, Menu, Notepad};

fn notepad_with(text: &str) -> Notepad {
    let mut n = Notepad::test_default();
    n.active_doc_mut().install_text(text);
    n
}

// --- titles ---

#[test]
fn doc_title_no_file() {
    let doc = Document::default();
    assert_eq!(doc.title_label(), "Sans titre");
}

#[test]
fn doc_title_with_file() {
    let mut doc = Document::default();
    doc.file_path = Some("/tmp/test.txt".to_string());
    assert_eq!(doc.title_label(), "test.txt");
}

#[test]
fn doc_title_modified() {
    let mut doc = Document::default();
    doc.is_modified = true;
    assert_eq!(doc.title_label(), "Sans titre *");
}

#[test]
fn title_no_file_not_modified() {
    let n = Notepad::test_default();
    assert_eq!(n.title(), "Sans titre - Notepad");
}

#[test]
fn title_no_file_modified() {
    let mut n = Notepad::test_default();
    n.active_doc_mut().is_modified = true;
    assert_eq!(n.title(), "Sans titre * - Notepad");
}

#[test]
fn title_with_file_not_modified() {
    let mut n = Notepad::test_default();
    n.active_doc_mut().file_path = Some("/tmp/test.txt".to_string());
    assert_eq!(n.title(), "test.txt - Notepad");
}

#[test]
fn title_with_file_modified() {
    let mut n = Notepad::test_default();
    let doc = n.active_doc_mut();
    doc.file_path = Some("/tmp/test.txt".to_string());
    doc.is_modified = true;
    assert_eq!(n.title(), "test.txt * - Notepad");
}

// --- undo history ---

#[test]
fn push_snapshot_respects_max_history() {
    let mut n = Notepad::test_default();
    for i in 0..MAX_UNDO_HISTORY + 10 {
        n.push_snapshot(TextSnapshot {
            text: format!("text{i}"),
            cursor_line: 0,
            cursor_col: 0,
        });
    }
    assert_eq!(n.active_doc().undo_stack.len(), MAX_UNDO_HISTORY);
}

#[test]
fn push_snapshot_evicts_oldest_first() {
    let mut n = Notepad::test_default();
    for i in 0..MAX_UNDO_HISTORY + 3 {
        n.push_snapshot(TextSnapshot {
            text: format!("text{i}"),
            cursor_line: 0,
            cursor_col: 0,
        });
    }
    let stack = &n.active_doc().undo_stack;
    assert_eq!(stack[0].text, "text3");
    assert_eq!(stack[stack.len() - 1].text, format!("text{}", MAX_UNDO_HISTORY + 2));
}

#[test]
fn push_snapshot_respects_adaptive_max_undo() {
    let mut n = Notepad::test_default();
    n.active_doc_mut().max_undo = LARGE_FILE_UNDO_HISTORY;
    for i in 0..LARGE_FILE_UNDO_HISTORY + 10 {
        n.push_snapshot(TextSnapshot {
            text: format!("text{i}"),
            cursor_line: 0,
            cursor_col: 0,
        });
    }
    assert_eq!(n.active_doc().undo_stack.len(), LARGE_FILE_UNDO_HISTORY);
}

#[test]
fn undo_restores_previous_text() {
    let mut n = notepad_with("original");
    n.save_snapshot();
    n.active_doc_mut().install_text("modified");
    n.undo();
    assert_eq!(n.active_doc().content.text().trim_end(), "original");
}

#[test]
fn redo_after_undo() {
    let mut n = notepad_with("original");
    n.save_snapshot();
    n.active_doc_mut().install_text("modified");
    n.active_doc_mut().is_modified = true;
    n.undo();
    assert_eq!(n.active_doc().content.text().trim_end(), "original");
    n.redo();
    assert_eq!(n.active_doc().content.text().trim_end(), "modified");
}

#[test]
fn undo_on_empty_stack_is_noop() {
    let mut n = notepad_with("hello");
    n.undo();
    assert_eq!(n.active_doc().content.text().trim_end(), "hello");
}

#[test]
fn redo_on_empty_stack_is_noop() {
    let mut n = notepad_with("hello");
    n.redo();
    assert_eq!(n.active_doc().content.text().trim_end(), "hello");
}

#[test]
fn undo_redo_many_edits_round_trip() {
    let mut n = notepad_with("base");
    let texts = ["one", "two", "three"];
    for t in texts.iter() {
        n.save_snapshot();
        n.active_doc_mut().install_text(t);
    }
    for _ in 0..texts.len() {
        n.undo();
    }
    assert_eq!(n.active_doc().content.text(), "base");
    assert!(n.active_doc().is_modified);
    for _ in 0..texts.len() {
        n.redo();
    }
    assert_eq!(n.active_doc().content.text(), "three");
}

#[test]
fn undo_restores_recorded_cursor() {
    let mut n = notepad_with("ab\ncd");
    n.active_doc_mut().navigate_to(1, 1);
    n.save_snapshot();
    n.active_doc_mut().install_text("xyz");
    n.undo();
    assert_eq!(n.active_doc().content.cursor_position(), (1, 1));
    assert_eq!(n.active_doc().redo_stack.len(), 1);
    assert_eq!(n.active_doc().redo_stack[0].text, "xyz");
}

#[test]
fn typed_edits_batch_within_window() {
    let mut n = Notepad::test_default();
    n.apply_edit(Edit::Insert('a'), 1_000);
    n.apply_edit(Edit::Insert('b'), 1_100);
    n.apply_edit(Edit::Insert('c'), 1_350);
    assert_eq!(n.active_doc().undo_stack.len(), 1);
    n.apply_edit(Edit::Insert('d'), 1_700);
    assert_eq!(n.active_doc().undo_stack.len(), 2);
    assert_eq!(n.active_doc().content.text(), "abcd");
    assert!(n.active_doc().is_modified);
    assert_eq!(n.active_doc().char_count, 4);
    assert_eq!(n.active_doc().word_count, 1);
    n.undo();
    assert_eq!(n.active_doc().content.text(), "abc");
    n.undo();
    assert_eq!(n.active_doc().content.text(), "");
}

#[test]
fn boundary_snapshot_clears_redo() {
    let mut n = notepad_with("x");
    n.save_snapshot();
    n.active_doc_mut().install_text("y");
    n.undo();
    assert_eq!(n.active_doc().redo_stack.len(), 1);
    n.save_snapshot();
    assert_eq!(n.active_doc().redo_stack.len(), 0);
    assert!(n.active_doc().last_edit_time.is_none());
}

#[test]
fn edits_backspace_delete_and_stats() {
    let mut n = notepad_with("hello world");
    n.apply_edit(Edit::Backspace, 0);
    assert_eq!(n.active_doc().content.text(), "hello worl");
    n.apply_edit(Edit::Enter, 0);
    n.apply_edit(Edit::Paste("foo  bar".to_string()), 0);
    assert_eq!(n.active_doc().content.text(), "hello worl\nfoo  bar");
    assert_eq!(n.active_doc().word_count, 4);
    assert_eq!(n.active_doc().char_count, 19);
    n.active_doc_mut().content.move_document_start();
    n.apply_edit(Edit::Delete, 0);
    assert_eq!(n.active_doc().content.text(), "ello worl\nfoo  bar");
}

// --- tabs ---

#[test]
fn new_tab_adds_document() {
    let mut n = Notepad::test_default();
    assert_eq!(n.tabs.len(), 1);
    n.tabs.push(Document::default());
    n.active_tab = n.tabs.len() - 1;
    assert_eq!(n.tabs.len(), 2);
    assert_eq!(n.active_tab, 1);
}

#[test]
fn close_tab_removes_document() {
    let mut n = Notepad::test_default();
    n.tabs.push(Document::default());
    n.tabs.push(Document::default());
    assert_eq!(n.tabs.len(), 3);
    n.remove_tab(1);
    assert_eq!(n.tabs.len(), 2);
}

#[test]
fn close_last_tab_creates_new_empty() {
    let mut n = Notepad::test_default();
    n.active_doc_mut().is_modified = false;
    n.remove_tab(0);
    assert_eq!(n.tabs.len(), 1);
    assert_eq!(n.active_tab, 0);
    assert!(!n.active_doc().is_modified);
}

#[test]
fn switch_tab_changes_active() {
    let mut n = Notepad::test_default();
    n.tabs.push(Document::default());
    n.active_tab = 0;
    n.active_tab = 1;
    assert_eq!(n.active_tab, 1);
}

#[test]
fn close_tab_adjusts_active_index() {
    let mut n = Notepad::test_default();
    n.tabs.push(Document::default());
    n.tabs.push(Document::default());
    n.active_tab = 2;
    n.remove_tab(0);
    assert_eq!(n.active_tab, 1);
}

#[test]
fn remove_tab_resets_when_last() {
    let mut n = notepad_with("some content");
    n.active_doc_mut().file_path = Some("/tmp/test.txt".to_string());
    n.active_doc_mut().is_modified = true;
    n.remove_tab(0);
    assert!(n.active_doc().file_path.is_none());
    assert!(!n.active_doc().is_modified);
    assert!(n.active_doc().undo_stack.is_empty());
}

#[test]
fn closing_only_tab_keeps_one_fresh_document() {
    let mut n = notepad_with("draft");
    n.save_snapshot();
    n.active_doc_mut().install_text("draft 2");
    n.undo();
    assert_eq!(n.close_tab(0), CloseOutcome::NeedsConfirmation);
    assert_eq!(n.tabs.len(), 1);
    n.confirm_close_tab(true, 0);
    assert_eq!(n.tabs.len(), 1);
    let d = n.active_doc();
    assert!(!d.is_modified);
    assert!(d.file_path.is_none());
    assert!(d.undo_stack.is_empty());
    assert!(d.redo_stack.is_empty());
    assert_eq!(d.content.text(), "");
}

#[test]
fn close_tab_out_of_range_and_declined() {
    let mut n = Notepad::test_default();
    n.new_tab();
    assert_eq!(n.close_tab(5), CloseOutcome::Ignored);
    n.active_doc_mut().is_modified = true;
    assert_eq!(n.close_tab(1), CloseOutcome::NeedsConfirmation);
    n.confirm_close_tab(false, 1);
    assert_eq!(n.tabs.len(), 2);
    assert_eq!(n.close_tab(0), CloseOutcome::Closed);
    assert_eq!(n.tabs.len(), 1);
    assert_eq!(n.active_tab, 0);
}

#[test]
fn switching_tabs_resets_find_cursor_only() {
    let mut n = Notepad::test_default();
    n.new_tab();
    n.search.find_query = "abc".to_string();
    n.search.case_sensitive = false;
    n.search.find_cursor = 7;
    n.switch_tab(0);
    assert_eq!(n.active_tab, 0);
    assert_eq!(n.search.find_cursor, 0);
    assert_eq!(n.search.find_query, "abc");
    assert!(!n.search.case_sensitive);
    n.switch_tab(9);
    assert_eq!(n.active_tab, 0);
    n.next_tab();
    assert_eq!(n.active_tab, 1);
    n.next_tab();
    assert_eq!(n.active_tab, 0);
    n.previous_tab();
    assert_eq!(n.active_tab, 1);
}

// --- files ---

#[test]
fn default_document_encoding_is_utf8() {
    let doc = Document::default();
    assert_eq!(doc.encoding, TextEncoding::Utf8);
    assert_eq!(doc.max_undo, MAX_UNDO_HISTORY);
}

#[test]
fn open_policy_thresholds() {
    assert_eq!(open_policy(0), OpenPolicy::Proceed);
    assert_eq!(open_policy(10), OpenPolicy::Proceed);
    assert_eq!(open_policy(11), OpenPolicy::Confirm);
    assert_eq!(open_policy(100), OpenPolicy::Confirm);
    assert_eq!(open_policy(101), OpenPolicy::Refuse);
}

#[test]
fn open_file_reuses_untouched_tab() {
    let mut n = notepad_with("  \n\t");
    n.open_file(b"a\r\nb", "/tmp/a.txt".to_string(), 0);
    assert_eq!(n.tabs.len(), 1);
    let d = n.active_doc();
    assert_eq!(d.content.text(), "a\r\nb");
    assert_eq!(d.line_ending.label(), "CRLF");
    assert_eq!(d.file_path.as_deref(), Some("/tmp/a.txt"));
    assert_eq!(d.status_message.as_deref(), Some("Ouvert : a.txt"));
    assert!(!d.is_modified);
    assert_eq!(d.max_undo, MAX_UNDO_HISTORY);
}

#[test]
fn open_file_in_new_tab_when_touched() {
    let mut n = notepad_with("notes");
    n.open_file(&[0x48, 0x69, 0xE9], "/tmp/big.txt".to_string(), 20);
    assert_eq!(n.tabs.len(), 2);
    assert_eq!(n.active_tab, 1);
    let d = n.active_doc();
    assert_eq!(d.content.text(), "Hié");
    assert_eq!(d.encoding, TextEncoding::Windows1252);
    assert_eq!(d.max_undo, LARGE_FILE_UNDO_HISTORY);
    assert_eq!(d.content.cursor(), 3);
}

#[test]
fn autosave_targets_and_mark_saved() {
    let mut n = Notepad::test_default();
    n.new_tab();
    n.new_tab();
    n.tabs[0].is_modified = true;
    n.tabs[1].is_modified = true;
    n.tabs[1].file_path = Some("/tmp/one.txt".to_string());
    n.tabs[2].file_path = Some("/tmp/two.txt".to_string());
    assert!(n.any_modified());
    assert_eq!(n.autosave_targets(), vec![1]);
    n.mark_saved(1, "/tmp/one.txt".to_string());
    assert!(!n.tabs[1].is_modified);
    assert_eq!(n.tabs[1].status_message.as_deref(), Some("Enregistré : one.txt"));
    assert!(n.autosave_targets().is_empty());
}

#[test]
fn encode_content_utf8() {
    let mut d = Document::default();
    d.install_text("é!");
    assert_eq!(d.encode_content(), vec![0xC3, 0xA9, 0x21]);
}

#[test]
fn session_data_default_empty() {
    let session = SessionData::default();
    assert!(session.tabs.is_empty());
    assert_eq!(session.active_tab, 0);
}

#[test]
fn session_data_capture_and_path() {
    let mut n = notepad_with("unsaved");
    n.new_tab();
    n.active_doc_mut().file_path = Some("/tmp/test.txt".to_string());
    let data = SessionData::capture(&n);
    assert_eq!(data.active_tab, 1);
    assert_eq!(data.tabs.len(), 2);
    assert_eq!(data.tabs[0].unsaved_content.as_deref(), Some("unsaved"));
    assert!(data.tabs[1].unsaved_content.is_none());
    assert_eq!(data.tabs[1].file_path.as_deref(), Some("/tmp/test.txt"));
    assert_eq!(SessionData::path("/opt/app"), "/opt/app/session.json");
    assert_eq!(SessionData::path("/opt/app/"), "/opt/app/session.json");
    assert_eq!(SessionData::path(""), "session.json");
}

// --- messages ---

#[test]
fn go_to_line_parses_and_moves() {
    let mut n = notepad_with("a\nbb\nccc");
    n.handle_search(SearchMsg::OpenGoTo);
    assert!(n.show_goto);
    n.handle_search(SearchMsg::GoToInputChanged("2".to_string()));
    assert_eq!(n.handle_search(SearchMsg::GoToLineSubmit), UiAction::SyncLineNumbers);
    assert!(!n.show_goto);
    assert_eq!(n.active_doc().content.cursor_position(), (1, 0));
    n.handle_search(SearchMsg::GoToInputChanged("x2".to_string()));
    assert_eq!(n.handle_search(SearchMsg::GoToLineSubmit), UiAction::Nothing);
}

#[test]
fn parse_usize_like_std() {
    assert_eq!(parse_usize("42"), Some(42));
    assert_eq!(parse_usize("+7"), Some(7));
    assert_eq!(parse_usize("0"), Some(0));
    assert_eq!(parse_usize(""), None);
    assert_eq!(parse_usize("+"), None);
    assert_eq!(parse_usize("-1"), None);
    assert_eq!(parse_usize(" 1"), None);
    assert_eq!(parse_usize("99999999999999999999999"), None);
    assert_eq!(parse_usize("18446744073709551615"), Some(usize::MAX));
}

#[test]
fn menu_toggle_and_hover() {
    let mut n = Notepad::test_default();
    n.handle_menu(MenuMsg::Hover(Menu::Edit));
    assert_eq!(n.active_menu, None);
    n.handle_menu(MenuMsg::Toggle(Menu::File));
    assert_eq!(n.active_menu, Some(Menu::File));
    n.handle_menu(MenuMsg::Hover(Menu::Edit));
    assert_eq!(n.active_menu, Some(Menu::Edit));
    n.handle_menu(MenuMsg::Toggle(Menu::Edit));
    assert_eq!(n.active_menu, None);
    n.handle_menu(MenuMsg::ShowContext);
    assert!(n.show_context_menu);
    n.handle_menu(MenuMsg::CloseAll);
    assert!(!n.show_context_menu);
}

#[test]
fn relocation_prefers_cheapest_route() {
    assert_eq!(choose_relocation(5, 6, 100), Relocation::FromCurrent);
    assert_eq!(choose_relocation(50, 2, 100), Relocation::FromStart);
    assert_eq!(choose_relocation(10, 98, 100), Relocation::FromEnd);
    assert_eq!(choose_relocation(4, 2, 100), Relocation::FromCurrent);
    assert_eq!(choose_relocation(40, 20, 40), Relocation::FromCurrent);
    assert_eq!(choose_relocation(0, 20, 40), Relocation::FromCurrent);
    assert_eq!(choose_relocation(35, 15, 30), Relocation::FromStart);
}

#[test]
fn navigate_clamps_line_and_runs_past_short_lines() {
    let mut n = notepad_with("ab\ncdef\ng");
    n.active_doc_mut().navigate_to(1, 2);
    assert_eq!(n.active_doc().content.cursor_position(), (1, 2));
    n.active_doc_mut().navigate_to(9, 0);
    assert_eq!(n.active_doc().content.cursor_position(), (2, 0));
    assert_eq!(n.active_doc().scroll_offset, 2);
    // Column steps run on across the end of line 0 into line 1.
    n.active_doc_mut().navigate_to(0, 4);
    assert_eq!(n.active_doc().content.cursor_position(), (1, 1));
    n.active_doc_mut().navigate_to(2, 10);
    assert_eq!(n.active_doc().content.cursor(), 9);
}

#[test]
fn cut_and_paste_requests() {
    let mut n = notepad_with("hello world");
    n.handle_edit(EditMsg::SelectAll);
    match n.handle_edit(EditMsg::Cut) {
        EditRequest::Cut(t) => assert_eq!(t, "hello world"),
        _ => panic!("expected a cut request"),
    }
    n.delete_selection();
    assert_eq!(n.active_doc().content.text(), "");
    assert!(matches!(n.handle_edit(EditMsg::Copy), EditRequest::Nothing));
    assert!(matches!(n.handle_edit(EditMsg::Paste), EditRequest::Paste));
    n.insert_text("pasted".to_string());
    assert_eq!(n.active_doc().content.text(), "pasted");
    n.handle_edit(EditMsg::Undo);
    assert_eq!(n.active_doc().content.text(), "");
    n.handle_edit(EditMsg::Undo);
    assert_eq!(n.active_doc().content.text(), "hello world");
}

#[test]
fn scroll_by_clamps_to_lines() {
    let mut n = notepad_with("a\nb\nc");
    n.active_doc_mut().scroll_by(5);
    assert_eq!(n.active_doc().scroll_offset, 2);
    n.active_doc_mut().scroll_by(-1);
    assert_eq!(n.active_doc().scroll_offset, 1);
    n.active_doc_mut().scroll_by(-7);
    assert_eq!(n.active_doc().scroll_offset, 0);
}

#[test]
fn new_session_defaults() {
    let n = Notepad::new();
    let d = n.active_doc();
    assert_eq!(d.max_undo, MAX_UNDO_HISTORY);
    assert!(d.undo_stack.is_empty() && d.redo_stack.is_empty());
    assert_eq!(d.encoding, TextEncoding::Utf8);
    assert_eq!(d.line_ending.label(), "LF");
}

#[test]
fn file_messages_on_tabs() {
    let mut n = Notepad::test_default();
    assert!(matches!(n.handle_file(FileMsg::NewTab), FileRequest::Nothing));
    assert_eq!(n.tabs.len(), 2);
    assert!(matches!(n.handle_file(FileMsg::CloseTab(7)), FileRequest::Nothing));
    assert_eq!(n.tabs.len(), 2);
    n.search.find_cursor = 4;
    n.handle_file(FileMsg::SwitchTab(0));
    assert_eq!((n.active_tab, n.search.find_cursor), (0, 0));
    n.tabs[1].is_modified = true;
    assert!(matches!(n.handle_file(FileMsg::CloseTab(1)), FileRequest::ConfirmCloseTab(1)));
    n.handle_file(FileMsg::ConfirmCloseTabResult(true, 1));
    assert_eq!(n.tabs.len(), 1);
}

#[test]
fn toggles_keep_other_settings() {
    let mut n = Notepad::test_default();
    n.handle_search(SearchMsg::ReplaceQueryChanged("r".to_string()));
    n.handle_search(SearchMsg::ToggleRegex);
    n.handle_search(SearchMsg::ToggleCaseSensitive);
    assert!(n.search.use_regex);
    assert!(!n.search.case_sensitive);
    assert_eq!(n.search.replace_query, "r");
}
