//! Byte encodings of documents and line-ending detection.
use vstd::prelude::*;
use vstd::utf8::{decode_utf8, valid_utf8};

verus! {

/// The line-ending convention of a document.
#[derive(Debug, Clone, Copy, PartialEq, Eq, Structural)]
pub enum LineEnding {
    Lf,
    CrLf,
}

/// `s` holds a carriage return directly followed by a line feed.
pub open spec fn has_crlf(s: Seq<char>) -> bool {
    exists|i: int| 0 <= i && i + 1 < s.len() && #[trigger] s[i] == '\r' && s[i + 1] == '\n'
}

impl LineEnding {
    /// CRLF when the text holds `"\r\n"` anywhere, LF otherwise.
    pub fn detect(text: &str) -> (r: LineEnding)
        ensures
            r == (if has_crlf(text@) {
                LineEnding::CrLf
            } else {
                LineEnding::Lf
            }),
    {
        let chars = crate::text::chars_of(text);
        let mut i: usize = 0;
        while i < chars.len() && i + 1 < chars.len()
            invariant
                chars@ == text@,
                0 <= i <= chars.len(),
                forall|j: int| 0 <= j < i ==> !(#[trigger] chars@[j] == '\r' && chars@[j + 1] == '\n'),
            decreases chars.len() - i,
        {
            if chars[i] == '\r' && chars[i + 1] == '\n' {
                return LineEnding::CrLf;
            }
            i = i + 1;
        }
        LineEnding::Lf
    }

    /// The short name shown in the status bar.
    pub fn label(self) -> (r: &'static str)
        ensures
            r@ == (match self {
                LineEnding::Lf => "LF"@,
                LineEnding::CrLf => "CRLF"@,
            }),
    {
        match self {
            LineEnding::Lf => "LF",
            LineEnding::CrLf => "CRLF",
        }
    }
}

/// The byte encodings a document can be read in and written back with.
#[derive(Debug, Clone, Copy, PartialEq, Eq, Structural)]
pub enum TextEncoding {
    Utf8,
    Utf16Le,
    Utf16Be,
    Windows1252,
}

/// The encoding that a leading byte-order mark announces, with the mark's length.
pub open spec fn bom_spec(b: Seq<u8>) -> Option<(TextEncoding, nat)> {
    if b.len() >= 3 && b[0] == 0xEF && b[1] == 0xBB && b[2] == 0xBF {
        Some((TextEncoding::Utf8, 3))
    } else if b.len() >= 2 && b[0] == 0xFF && b[1] == 0xFE {
        Some((TextEncoding::Utf16Le, 2))
    } else if b.len() >= 2 && b[0] == 0xFE && b[1] == 0xFF {
        Some((TextEncoding::Utf16Be, 2))
    } else {
        None
    }
}

/// The encoding announced by a leading byte-order mark of `b`, and the
/// mark's length.
pub fn bom_of(b: &[u8]) -> (r: Option<(TextEncoding, usize)>)
    ensures
        r matches Some((e, n)) ==> bom_spec(b@) == Some((e, n as nat)),
        r is None ==> bom_spec(b@) is None,
{
    let n = b.len();
    if n >= 3 && b[0] == 0xEF && b[1] == 0xBB && b[2] == 0xBF {
        Some((TextEncoding::Utf8, 3))
    } else if n >= 2 && b[0] == 0xFF && b[1] == 0xFE {
        Some((TextEncoding::Utf16Le, 2))
    } else if n >= 2 && b[0] == 0xFE && b[1] == 0xFF {
        Some((TextEncoding::Utf16Be, 2))
    } else {
        None
    }
}

/// What decoding `b` with `e`, without looking for a byte-order mark, gives:
/// the text (malformed sequences replaced) and whether any sequence was
/// malformed.
pub uninterp spec fn decoded_with(e: TextEncoding, b: Seq<u8>) -> (Seq<char>, bool);

/// Relies on `encoding_rs::Encoding::decode_without_bom_handling`: decodes
/// the whole input with the given encoding. UTF-8 reports malformed input
/// exactly when the bytes are not valid UTF-8, and decodes valid input to its
/// scalar values. Windows-1252 gives one character per byte, bytes below 0x80
/// and from 0xA0 up as the code point of the same value, and never reports
/// malformed input.
#[verifier::external_body]
fn decode_without_bom(e: TextEncoding, b: &[u8]) -> (r: (String, bool))
    ensures
        r.0@ == decoded_with(e, b@).0,
        r.1 == decoded_with(e, b@).1,
        e == TextEncoding::Windows1252 ==> !r.1 && r.0@.len() == b@.len() && (forall|i: int|
            0 <= i < b@.len() && (#[trigger] b@[i] < 0x80 || b@[i] >= 0xA0) ==> r.0@[i]
                == b@[i] as char),
        e == TextEncoding::Utf8 ==> (r.1 <==> !valid_utf8(b@)),
        e == TextEncoding::Utf8 && valid_utf8(b@) ==> r.0@ == decode_utf8(b@),
{
    let enc = match e {
        TextEncoding::Utf8 => encoding_rs::UTF_8,
        TextEncoding::Utf16Le => encoding_rs::UTF_16LE,
        TextEncoding::Utf16Be => encoding_rs::UTF_16BE,
        TextEncoding::Windows1252 => encoding_rs::WINDOWS_1252,
    };
    let (decoded, had_errors) = enc.decode_without_bom_handling(b);
    (decoded.into_owned(), had_errors)
}

/// The text and encoding that reading `b` gives: the encoding of a leading
/// byte-order mark (the mark itself dropped), else UTF-8 where `b` decodes
/// as UTF-8 without error, else Windows-1252.
pub open spec fn decode_spec(b: Seq<u8>) -> (Seq<char>, TextEncoding) {
    match bom_spec(b) {
        Some((e, n)) => (decoded_with(e, b.skip(n as int)).0, e),
        None => if !decoded_with(TextEncoding::Utf8, b).1 {
            (decoded_with(TextEncoding::Utf8, b).0, TextEncoding::Utf8)
        } else {
            (decoded_with(TextEncoding::Windows1252, b).0, TextEncoding::Windows1252)
        },
    }
}

/// Decodes file contents; never fails (see `decode_spec`).
pub fn decode_bytes(b: &[u8]) -> (r: (String, TextEncoding))
    ensures
        r.0@ == decode_spec(b@).0,
        r.1 == decode_spec(b@).1,
        bom_spec(b@) is None && valid_utf8(b@) ==> r.1 == TextEncoding::Utf8 && r.0@
            == decode_utf8(b@),
        bom_spec(b@) is None && !valid_utf8(b@) ==> r.1 == TextEncoding::Windows1252 && r.0@.len()
            == b@.len() && (forall|i: int|
            0 <= i < b@.len() && (#[trigger] b@[i] < 0x80 || b@[i] >= 0xA0) ==> r.0@[i]
                == b@[i] as char),
{
    match bom_of(b) {
        Some((e, n)) => {
            let rest = &b[n..b.len()];
            assert(rest@ =~= b@.skip(n as int));
            let (text, _) = decode_without_bom(e, rest);
            (text, e)
        },
        None => {
            let (text, had_errors) = decode_without_bom(TextEncoding::Utf8, b);
            if !had_errors {
                (text, TextEncoding::Utf8)
            } else {
                let (latin, _) = decode_without_bom(TextEncoding::Windows1252, b);
                (latin, TextEncoding::Windows1252)
            }
        },
    }
}

} // verus!
