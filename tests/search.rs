use notepad_core::datetime::format_local_datetime;
use notepad_core::encoding::{decode_bytes, TextEncoding};
use notepad_core::session::Notepad;

fn notepad_with(text: &str) -> Notepad {
    let mut n = Notepad::test_default();
    n.active_doc_mut().install_text(text);
    n
}

// --- build_regex ---

#[test]
fn build_regex_case_sensitive_literal() {
    let mut n = Notepad::test_default();
    n.search.find_query = "Hello".to_string();
    n.search.case_sensitive = true;
    n.search.use_regex = false;
    let re = n.search.build_regex().unwrap();
    assert!(re.is_match("Hello"));
    assert!(!re.is_match("hello"));
}

#[test]
fn build_regex_case_insensitive_literal() {
    let mut n = Notepad::test_default();
    n.search.find_query = "hello".to_string();
    n.search.case_sensitive = false;
    n.search.use_regex = false;
    let re = n.search.build_regex().unwrap();
    assert!(re.is_match("HELLO"));
    assert!(re.is_match("Hello"));
    assert!(re.is_match("hello"));
}

#[test]
fn build_regex_valid_pattern() {
    let mut n = Notepad::test_default();
    n.search.find_query = r"\d+".to_string();
    n.search.case_sensitive = true;
    n.search.use_regex = true;
    let re = n.search.build_regex().unwrap();
    assert!(re.is_match("abc123"));
    assert!(!re.is_match("abc"));
}

#[test]
fn build_regex_invalid_pattern() {
    let mut n = Notepad::test_default();
    n.search.find_query = "[unclosed".to_string();
    n.search.use_regex = true;
    assert!(n.search.build_regex().is_none());
}

#[test]
fn build_regex_case_insensitive_regex() {
    let mut n = Notepad::test_default();
    n.search.find_query = "abc".to_string();
    n.search.case_sensitive = false;
    n.search.use_regex = true;
    let re = n.search.build_regex().unwrap();
    assert!(re.is_match("ABC"));
}

#[test]
fn build_regex_escapes_special_chars_in_literal() {
    let mut n = Notepad::test_default();
    n.search.find_query = "a.b".to_string();
    n.search.case_sensitive = true;
    n.search.use_regex = false;
    let re = n.search.build_regex().unwrap();
    assert!(re.is_match("a.b"));
    assert!(!re.is_match("axb"));
}

// --- find_in / rfind_in ---

#[test]
fn find_in_from_start() {
    let mut n = notepad_with("hello world hello");
    n.search.find_query = "hello".to_string();
    n.search.case_sensitive = true;
    assert_eq!(n.search.find_in("hello world hello", 0), Some((0, 5)));
}

#[test]
fn find_in_from_offset() {
    let mut n = notepad_with("hello world hello");
    n.search.find_query = "hello".to_string();
    n.search.case_sensitive = true;
    assert_eq!(n.search.find_in("hello world hello", 1), Some((12, 5)));
}

#[test]
fn find_in_no_match() {
    let mut n = notepad_with("hello world");
    n.search.find_query = "xyz".to_string();
    n.search.case_sensitive = true;
    assert_eq!(n.search.find_in("hello world", 0), None);
}

#[test]
fn rfind_in_last_occurrence() {
    let mut n = notepad_with("hello world hello");
    n.search.find_query = "hello".to_string();
    n.search.case_sensitive = true;
    let text = "hello world hello";
    assert_eq!(n.search.rfind_in(text, text.len()), Some((12, 5)));
}

#[test]
fn find_in_case_insensitive() {
    let mut n = notepad_with("Hello World");
    n.search.find_query = "hello".to_string();
    n.search.case_sensitive = false;
    assert_eq!(n.search.find_in("Hello World", 0), Some((0, 5)));
}

#[test]
fn find_in_case_sensitive_rejects_other_case() {
    let mut n = Notepad::test_default();
    n.search.find_query = "hello".to_string();
    n.search.case_sensitive = true;
    assert_eq!(n.search.find_in("Hello HELLO", 0), None);
}

#[test]
fn find_in_multibyte_offsets() {
    let mut n = Notepad::test_default();
    n.search.find_query = "bar".to_string();
    assert_eq!(n.search.find_in("café bar", 0), Some((6, 3)));
    assert_eq!(n.search.find_in("café bar", 3), Some((6, 3)));
}

// --- find_next / find_previous ---

#[test]
fn find_next_empty_query_no_crash() {
    let mut n = notepad_with("some text");
    n.search.find_query = String::new();
    n.find_next();
}

#[test]
fn find_next_empty_text_no_crash() {
    let mut n = notepad_with("");
    n.search.find_query = "abc".to_string();
    n.find_next();
}

#[test]
fn find_previous_empty_query_no_crash() {
    let mut n = notepad_with("some text");
    n.search.find_query = String::new();
    n.find_previous();
}

#[test]
fn find_next_wraps_around() {
    let mut n = notepad_with("abc def abc");
    n.search.find_query = "abc".to_string();
    n.search.case_sensitive = true;
    n.search.find_cursor = 100;
    n.find_next();
    assert!(n.search.find_cursor > 0);
}

#[test]
fn find_next_wraps_to_first_occurrence() {
    let mut n = notepad_with("abc def abc");
    n.search.find_query = "abc".to_string();
    n.search.find_cursor = 100;
    n.find_next();
    assert_eq!(n.search.find_cursor, 3);
    assert_eq!(n.selected_text().as_deref(), Some("abc"));
    assert_eq!(n.active_doc().content.cursor(), 3);
    n.find_next();
    assert_eq!(n.search.find_cursor, 11);
    n.find_next();
    assert_eq!(n.search.find_cursor, 3);
}

#[test]
fn find_next_selects_characters_not_bytes() {
    let mut n = notepad_with("x\nhé hé");
    n.search.find_query = "hé".to_string();
    n.find_next();
    assert_eq!(n.search.find_cursor, 5);
    assert_eq!(n.selected_text().as_deref(), Some("hé"));
    assert_eq!(n.active_doc().content.cursor_position(), (1, 2));
    assert_eq!(n.active_doc().scroll_offset, 1);
}

#[test]
fn find_previous_goes_backwards_and_wraps() {
    let mut n = notepad_with("ab ab ab");
    n.search.find_query = "ab".to_string();
    n.find_previous();
    assert_eq!(n.search.find_cursor, 8);
    n.find_previous();
    assert_eq!(n.search.find_cursor, 5);
    n.find_previous();
    assert_eq!(n.search.find_cursor, 2);
    n.find_previous();
    assert_eq!(n.search.find_cursor, 8);
}

#[test]
fn find_next_invalid_regex_changes_nothing() {
    let mut n = notepad_with("abc");
    n.search.find_query = "(".to_string();
    n.search.use_regex = true;
    n.search.find_cursor = 1;
    n.find_next();
    assert_eq!(n.search.find_cursor, 1);
    assert_eq!(n.selected_text(), None);
}

// --- replace ---

#[test]
fn replace_all_simple() {
    let mut n = notepad_with("hello world hello");
    n.search.find_query = "hello".to_string();
    n.search.replace_query = "hi".to_string();
    n.search.case_sensitive = true;
    n.replace_all();
    assert_eq!(n.active_doc().content.text().trim_end(), "hi world hi");
    assert!(n.active_doc().is_modified);
}

#[test]
fn replace_all_case_insensitive() {
    let mut n = notepad_with("Hello HELLO hello");
    n.search.find_query = "hello".to_string();
    n.search.replace_query = "hi".to_string();
    n.search.case_sensitive = false;
    n.replace_all();
    assert_eq!(n.active_doc().content.text().trim_end(), "hi hi hi");
}

#[test]
fn replace_all_empty_query_no_change() {
    let mut n = notepad_with("hello world");
    n.search.find_query = String::new();
    n.search.replace_query = "hi".to_string();
    n.replace_all();
    assert!(!n.active_doc().is_modified);
}

#[test]
fn replace_all_no_match() {
    let mut n = notepad_with("hello world");
    n.search.find_query = "xyz".to_string();
    n.search.replace_query = "hi".to_string();
    n.search.case_sensitive = true;
    n.replace_all();
    assert!(!n.active_doc().is_modified);
}

#[test]
fn replace_all_twice_reports_no_change() {
    let mut n = notepad_with("a-b-c");
    n.search.find_query = "-".to_string();
    n.search.replace_query = "+".to_string();
    assert!(n.replace_all());
    assert_eq!(n.active_doc().content.text(), "a+b+c");
    assert_eq!(n.active_doc().undo_stack.len(), 1);
    assert!(!n.replace_all());
    assert_eq!(n.active_doc().content.text(), "a+b+c");
    assert_eq!(n.active_doc().undo_stack.len(), 1);
    n.undo();
    assert_eq!(n.active_doc().content.text(), "a-b-c");
}

#[test]
fn replace_one_steps_through_matches() {
    let mut n = notepad_with("cat cat cat");
    n.search.find_query = "cat".to_string();
    n.search.replace_query = "dog".to_string();
    n.replace_one();
    assert_eq!(n.active_doc().content.text(), "cat cat cat");
    assert_eq!(n.selected_text().as_deref(), Some("cat"));
    n.replace_one();
    assert_eq!(n.active_doc().content.text(), "dog cat cat");
    assert!(n.active_doc().is_modified);
    n.replace_one();
    assert_eq!(n.active_doc().content.text(), "dog dog cat");
    n.replace_one();
    assert_eq!(n.active_doc().content.text(), "dog dog dog");
}

// --- decoding ---

#[test]
fn decode_utf8_bytes() {
    let input = "Bonjour le monde".as_bytes();
    let (text, enc) = decode_bytes(input);
    assert_eq!(text, "Bonjour le monde");
    assert_eq!(enc, TextEncoding::Utf8);
}

#[test]
fn decode_utf8_with_bom() {
    let mut input = vec![0xEF, 0xBB, 0xBF];
    input.extend_from_slice("Hello".as_bytes());
    let (text, enc) = decode_bytes(&input);
    assert_eq!(text, "Hello");
    assert_eq!(enc, TextEncoding::Utf8);
}

#[test]
fn decode_latin1_fallback() {
    let input = vec![0x48, 0x65, 0x6C, 0x6C, 0x6F, 0xE9];
    let (text, enc) = decode_bytes(&input);
    assert_eq!(text, "Helloé");
    assert_eq!(enc, TextEncoding::Windows1252);
}

#[test]
fn decode_utf16le_bom() {
    let mut input = vec![0xFF, 0xFE];
    input.extend_from_slice(&[0x48, 0x00, 0x69, 0x00]);
    let (text, enc) = decode_bytes(&input);
    assert_eq!(text, "Hi");
    assert_eq!(enc, TextEncoding::Utf16Le);
}

#[test]
fn decode_utf16be_bom_and_empty() {
    let (text, enc) = decode_bytes(&[0xFE, 0xFF, 0x00, 0x41]);
    assert_eq!(text, "A");
    assert_eq!(enc, TextEncoding::Utf16Be);
    let (text, enc) = decode_bytes(&[]);
    assert_eq!(text, "");
    assert_eq!(enc, TextEncoding::Utf8);
}

#[test]
fn decode_never_fails_on_arbitrary_bytes() {
    let input: Vec<u8> = (0u8..=255).collect();
    let (text, enc) = decode_bytes(&input);
    assert_eq!(enc, TextEncoding::Windows1252);
    assert_eq!(text.chars().count(), 256);
}

// --- date stamp ---

#[test]
fn date_stamp_exact_values() {
    assert_eq!(format_local_datetime(0), "00:00 01/01/1970");
    assert_eq!(format_local_datetime(951_782_400), "00:00 29/02/2000");
    assert_eq!(format_local_datetime(1_700_000_000), "22:13 14/11/2023");
}

#[test]
fn replace_all_case_sensitive_leaves_other_cases() {
    let mut n = notepad_with("Hello HELLO hello");
    n.search.find_query = "hello".to_string();
    n.search.replace_query = "hi".to_string();
    n.search.case_sensitive = true;
    assert!(n.replace_all());
    assert_eq!(n.active_doc().content.text(), "Hello HELLO hi");
}

#[test]
fn replace_all_regex_with_groups() {
    let mut n = notepad_with("a1 b22 c333");
    n.search.find_query = r"(\w)(\d+)".to_string();
    n.search.replace_query = "$2$1".to_string();
    n.search.use_regex = true;
    assert!(n.replace_all());
    assert_eq!(n.active_doc().content.text(), "1a 22b 333c");
    assert_eq!(n.active_doc().content.cursor(), 11);
}

#[test]
fn decode_valid_utf8_multibyte_kept() {
    let (text, enc) = decode_bytes("héllo 日本".as_bytes());
    assert_eq!(text, "héllo 日本");
    assert_eq!(enc, TextEncoding::Utf8);
}
