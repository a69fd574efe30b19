use notepad_core::encoding::LineEnding;
use notepad_core::session::Notepad;
use notepad_core::text::{byte_pos_to_line_col, line_col_to_byte_pos};

#[test]
fn detect_crlf() {
    assert_eq!(LineEnding::detect("hello\r\nworld"), LineEnding::CrLf);
}

#[test]
fn detect_lf_only() {
    assert_eq!(LineEnding::detect("hello\nworld"), LineEnding::Lf);
}

#[test]
fn detect_no_newline() {
    assert_eq!(LineEnding::detect("hello world"), LineEnding::Lf);
}

#[test]
fn detect_mixed_prefers_crlf() {
    assert_eq!(LineEnding::detect("a\nb\r\nc"), LineEnding::CrLf);
}

#[test]
fn detect_crlf_among_many_bare_lf() {
    assert_eq!(LineEnding::detect("a\nb\nc\nd\ne\r\nf\ng"), LineEnding::CrLf);
}

#[test]
fn detect_lone_cr_is_lf() {
    assert_eq!(LineEnding::detect("a\rb\n"), LineEnding::Lf);
    assert_eq!(LineEnding::detect(""), LineEnding::Lf);
}

#[test]
fn label_lf() {
    assert_eq!(LineEnding::Lf.label(), "LF");
}

#[test]
fn label_crlf() {
    assert_eq!(LineEnding::CrLf.label(), "CRLF");
}

#[test]
fn byte_pos_start_of_file() {
    assert_eq!(byte_pos_to_line_col("hello\nworld", 0), (0, 0));
}

#[test]
fn byte_pos_mid_first_line() {
    assert_eq!(byte_pos_to_line_col("hello\nworld", 3), (0, 3));
}

#[test]
fn byte_pos_start_second_line() {
    assert_eq!(byte_pos_to_line_col("hello\nworld", 6), (1, 0));
}

#[test]
fn byte_pos_mid_second_line() {
    assert_eq!(byte_pos_to_line_col("hello\nworld", 9), (1, 3));
}

#[test]
fn byte_pos_end_of_text() {
    let text = "abc\ndef";
    assert_eq!(byte_pos_to_line_col(text, text.len()), (1, 3));
}

#[test]
fn byte_pos_multibyte_chars() {
    let text = "café\nbar";
    assert_eq!(byte_pos_to_line_col(text, 6), (1, 0));
    assert_eq!(byte_pos_to_line_col(text, 3), (0, 3));
}

#[test]
fn byte_pos_three_lines() {
    let text = "aaa\nbbb\nccc";
    assert_eq!(byte_pos_to_line_col(text, 8), (2, 0));
    assert_eq!(byte_pos_to_line_col(text, 10), (2, 2));
}

#[test]
fn byte_pos_column_counts_characters() {
    // "é" and "日" take two and three bytes but one column each.
    let text = "x\néa日b";
    assert_eq!(byte_pos_to_line_col(text, 2), (1, 0));
    assert_eq!(byte_pos_to_line_col(text, 4), (1, 1));
    assert_eq!(byte_pos_to_line_col(text, 5), (1, 2));
    assert_eq!(byte_pos_to_line_col(text, 8), (1, 3));
    assert_eq!(byte_pos_to_line_col(text, 9), (1, 4));
}

#[test]
fn line_col_round_trip_by_navigation() {
    // Going to the line and column of every boundary puts the cursor on
    // the character at that boundary.
    let text = "ab\ncafé\n\n日本";
    let mut n = Notepad::test_default();
    n.active_doc_mut().install_text(text);
    let chars: Vec<char> = text.chars().collect();
    let mut byte = 0usize;
    for (k, c) in chars.iter().enumerate() {
        let (line, col) = byte_pos_to_line_col(text, byte);
        n.active_doc_mut().navigate_to(line, col);
        assert_eq!(n.active_doc().content.cursor(), k);
        assert_eq!(n.active_doc().scroll_offset, line);
        byte += c.len_utf8();
    }
}

#[test]
fn line_col_round_trip_every_boundary() {
    for text in ["", "abc", "ab\ncafé\n\n日本", "x\r\ny\n"] {
        let mut byte = 0usize;
        let mut boundaries = vec![0usize];
        for c in text.chars() {
            byte += c.len_utf8();
            boundaries.push(byte);
        }
        for p in boundaries {
            let (line, col) = byte_pos_to_line_col(text, p);
            assert_eq!(line_col_to_byte_pos(text, line, col), Some(p));
        }
    }
}

#[test]
fn line_col_to_byte_pos_rejects_missing_positions() {
    let text = "ab\ncafé";
    assert_eq!(line_col_to_byte_pos(text, 1, 4), Some(8));
    assert_eq!(line_col_to_byte_pos(text, 1, 5), None);
    assert_eq!(line_col_to_byte_pos(text, 0, 3), None);
    assert_eq!(line_col_to_byte_pos(text, 2, 0), None);
    assert_eq!(line_col_to_byte_pos("", 0, 0), Some(0));
}
