//! Opening and saving documents: the size policy, loading decoded bytes into
//! a tab, encoding for writing, auto-save selection and window titles.
use vstd::prelude::*;
use vstd::utf8::encode_utf8;

use crate::document::{is_space, Document, LARGE_FILE_MB, LARGE_FILE_UNDO_HISTORY, MAX_UNDO_HISTORY};
use crate::encoding::{decode_bytes, decode_spec, has_crlf, LineEnding, TextEncoding};
use crate::session::Notepad;

verus! {

/// Files above this size (in MiB) are refused.
pub const FILE_SIZE_LIMIT_MB: u64 = 100;

/// Files above this size (in MiB) are opened only after a confirmation.
pub const FILE_SIZE_WARN_MB: u64 = 10;

/// What to do with a file of a given size.
#[derive(Debug, Clone, Copy, PartialEq, Eq, Structural)]
pub enum OpenPolicy {
    Refuse,
    Confirm,
    Proceed,
}

/// Refuse above the hard ceiling, confirm above the warning threshold,
/// proceed otherwise.
pub fn open_policy(size_mb: u64) -> (r: OpenPolicy)
    ensures
        r == (if size_mb > FILE_SIZE_LIMIT_MB {
            OpenPolicy::Refuse
        } else if size_mb > FILE_SIZE_WARN_MB {
            OpenPolicy::Confirm
        } else {
            OpenPolicy::Proceed
        }),
{
    if size_mb > FILE_SIZE_LIMIT_MB {
        OpenPolicy::Refuse
    } else if size_mb > FILE_SIZE_WARN_MB {
        OpenPolicy::Confirm
    } else {
        OpenPolicy::Proceed
    }
}

/// The final component of the path `p`, when it has one.
pub uninterp spec fn file_name(p: Seq<char>) -> Option<Seq<char>>;

/// Relies on `std::path::Path::file_name`: the last component of the path,
/// as text.
#[verifier::external_body]
fn path_file_name(p: &str) -> (r: Option<String>)
    ensures
        r is None <==> file_name(p@) is None,
        r matches Some(n) ==> file_name(p@) == Some(n@),
{
    std::path::Path::new(p).file_name().and_then(|n| n.to_str()).map(|n| n.to_string())
}

/// The name shown for a path: its file name, or `fallback` without one.
pub open spec fn display_name(p: Option<Seq<char>>, fallback: Seq<char>) -> Seq<char> {
    match p {
        Some(p) => match file_name(p) {
            Some(n) => n,
            None => fallback,
        },
        None => fallback,
    }
}

fn name_or(p: &Option<String>, fallback: &str) -> (r: String)
    ensures
        r@ == display_name(
            match p {
                Some(s) => Some(s@),
                None => None,
            },
            fallback@,
        ),
{
    match p {
        Some(path) => match path_file_name(path.as_str()) {
            Some(n) => n,
            None => fallback.to_owned(),
        },
        None => fallback.to_owned(),
    }
}

/// The status shown after saving to `path`: "Enregistré : " and the file name.
pub open spec fn saved_status(path: Seq<char>) -> Seq<char> {
    "Enregistré : "@ + display_name(Some(path), "fichier"@)
}

/// The status shown after opening `path`: "Ouvert : " and the file name.
pub open spec fn opened_status(path: Seq<char>) -> Seq<char> {
    "Ouvert : "@ + display_name(Some(path), "fichier"@)
}

/// The bytes that encoding `s` with `e` gives.
pub uninterp spec fn encoded_with(e: TextEncoding, s: Seq<char>) -> Seq<u8>;

/// Relies on `encoding_rs::Encoding::encode`: the text in the given
/// encoding; UTF-8 gives the text's own UTF-8 bytes.
#[verifier::external_body]
fn encode_with(e: TextEncoding, s: &str) -> (r: Vec<u8>)
    ensures
        r@ == encoded_with(e, s@),
        e == TextEncoding::Utf8 ==> r@ == encode_utf8(s@),
{
    let enc = match e {
        TextEncoding::Utf8 => encoding_rs::UTF_8,
        TextEncoding::Utf16Le => encoding_rs::UTF_16LE,
        TextEncoding::Utf16Be => encoding_rs::UTF_16BE,
        TextEncoding::Windows1252 => encoding_rs::WINDOWS_1252,
    };
    enc.encode(s).0.into_owned()
}

impl Document {
    /// Unmodified, untitled and blank (nothing but white space).
    pub open spec fn untouched(&self) -> bool {
        &&& !self.is_modified
        &&& self.file_path is None
        &&& forall|i: int|
            0 <= i < self.content.view_text().len() ==> is_space(
                #[trigger] self.content.view_text()[i],
            )
    }

    /// Whether the document can be reused to open a file in (see `untouched`).
    pub fn is_untouched(&self) -> (r: bool)
        ensures
            r == self.untouched(),
    {
        if self.is_modified || self.file_path.is_some() {
            return false;
        }
        let chars = self.content.chars();
        let mut i: usize = 0;
        while i < chars.len()
            invariant
                chars@ == self.content.view_text(),
                0 <= i <= chars.len(),
                forall|j: int| 0 <= j < i ==> is_space(#[trigger] chars@[j]),
            decreases chars.len() - i,
        {
            let u = chars[i] as u32;
            let space = u == 0x20 || (0x09 <= u && u <= 0x0D) || u == 0x85 || u == 0xA0 || u
                == 0x1680 || (0x2000 <= u && u <= 0x200A) || u == 0x2028 || u == 0x2029 || u
                == 0x202F || u == 0x205F || u == 0x3000;
            if !space {
                return false;
            }
            i = i + 1;
        }
        true
    }

    /// Installs the contents of the file `path` (`bytes`, `size_mb` MiB):
    /// decodes them (see `decode_spec`), detects the line ending, puts the
    /// cursor at the end, clears the history and the modified flag, and
    /// picks the undo bound by size.
    pub fn load_bytes(&mut self, bytes: &[u8], path: String, size_mb: u64)
        requires
            old(self).wf(),
        ensures
            final(self).wf(),
            final(self).content.view_text() == decode_spec(bytes@).0,
            final(self).content.view_cursor() == decode_spec(bytes@).0.len(),
            final(self).encoding == decode_spec(bytes@).1,
            final(self).line_ending == (if has_crlf(decode_spec(bytes@).0) {
                LineEnding::CrLf
            } else {
                LineEnding::Lf
            }),
            final(self).file_path == Some(path),
            !final(self).is_modified,
            final(self).scroll_offset == 0,
            final(self).undo_stack.len() == 0,
            final(self).redo_stack.len() == 0,
            final(self).last_edit_time is None,
            final(self).status_message matches Some(m) && m@ == opened_status(path@),
            final(self).max_undo == (if size_mb > LARGE_FILE_MB {
                LARGE_FILE_UNDO_HISTORY
            } else {
                MAX_UNDO_HISTORY
            }),
    {
        let (text, encoding) = decode_bytes(bytes);
        let ending = LineEnding::detect(text.as_str());
        let name = name_or(&Some(path.clone()), "fichier");
        self.install_text(text.as_str());
        self.line_ending = ending;
        self.encoding = encoding;
        self.is_modified = false;
        self.scroll_offset = 0;
        self.undo_stack.clear();
        self.redo_stack.clear();
        self.last_edit_time = None;
        self.status_message = Some("Ouvert : ".to_owned().concat(name.as_str()));
        self.max_undo = if size_mb > LARGE_FILE_MB {
            LARGE_FILE_UNDO_HISTORY
        } else {
            MAX_UNDO_HISTORY
        };
        self.file_path = Some(path);
    }

    /// Records a successful write to `path`: the document now has that path
    /// and is unmodified.
    pub fn mark_saved(&mut self, path: String)
        requires
            old(self).wf(),
        ensures
            final(self).wf(),
            final(self).file_path == Some(path),
            !final(self).is_modified,
            final(self).status_message matches Some(m) && m@ == saved_status(path@),
            final(self).content == old(self).content,
            final(self).history() == old(self).history(),
            final(self).undo_stack == old(self).undo_stack,
            final(self).redo_stack == old(self).redo_stack,
            final(self).encoding == old(self).encoding,
            final(self).line_ending == old(self).line_ending,
    {
        let name = name_or(&Some(path.clone()), "fichier");
        self.status_message = Some("Enregistré : ".to_owned().concat(name.as_str()));
        self.file_path = Some(path);
        self.is_modified = false;
    }

    /// The bytes to write: the text in the document's encoding.
    pub fn encode_content(&self) -> (r: Vec<u8>)
        ensures
            r@ == encoded_with(self.encoding, self.content.view_text()),
    {
        let text = self.content.text();
        encode_with(self.encoding, text.as_str())
    }

    /// The tab label: the file name (or "Sans titre"), with " *" when
    /// modified.
    pub fn title_label(&self) -> (r: String)
        ensures
            r@ == display_name(
                match self.file_path {
                    Some(p) => Some(p@),
                    None => None,
                },
                "Sans titre"@,
            ) + (if self.is_modified {
                " *"@
            } else {
                Seq::<char>::empty()
            }),
    {
        let name = name_or(&self.file_path, "Sans titre");
        if self.is_modified {
            name.concat(" *")
        } else {
            assert(name@ + Seq::<char>::empty() =~= name@);
            name
        }
    }
}

impl Notepad {
    /// Opens the file `path` with contents `bytes` (`size_mb` MiB): in the
    /// active tab when it is untouched, else in a new tab made active.
    pub fn open_file(&mut self, bytes: &[u8], path: String, size_mb: u64)
        requires
            old(self).wf(),
        ensures
            final(self).wf(),
            old(self).active().untouched() ==> final(self).tabs.len() == old(self).tabs.len()
                && final(self).active_tab == old(self).active_tab,
            !old(self).active().untouched() ==> final(self).tabs.len() == old(self).tabs.len() + 1
                && final(self).active_tab == old(self).tabs.len(),
            final(self).active().content.view_text() == decode_spec(bytes@).0,
            final(self).active().encoding == decode_spec(bytes@).1,
            final(self).active().file_path == Some(path),
            !final(self).active().is_modified,
    {
        if !self.tabs[self.active_tab].is_untouched() {
            self.new_tab();
        }
        let i = self.active_tab;
        self.tabs[i].load_bytes(bytes, path, size_mb);
        assert forall|j: int| 0 <= j < self.tabs.len() implies (#[trigger] self.tabs[j]).wf() by {
        }
    }

    /// Whether any open document holds unsaved changes.
    pub fn any_modified(&self) -> (r: bool)
        ensures
            r == exists|i: int| 0 <= i < self.tabs.len() && (#[trigger] self.tabs[i]).is_modified,
    {
        let mut i: usize = 0;
        while i < self.tabs.len()
            invariant
                0 <= i <= self.tabs.len(),
                forall|j: int| 0 <= j < i ==> !(#[trigger] self.tabs[j]).is_modified,
            decreases self.tabs.len() - i,
        {
            if self.tabs[i].is_modified {
                return true;
            }
            i = i + 1;
        }
        false
    }

    /// The tabs that auto-save writes: modified ones with a path, in order.
    pub fn autosave_targets(&self) -> (r: Vec<usize>)
        ensures
            forall|k: int| 0 <= k < r@.len() ==> (#[trigger] r@[k]) < self.tabs.len(),
            forall|k: int|
                0 <= k < r@.len() ==> self.tabs[#[trigger] r@[k] as int].is_modified
                    && self.tabs[r@[k] as int].file_path is Some,
            forall|i: int|
                0 <= i < self.tabs.len() && (#[trigger] self.tabs[i]).is_modified
                    && self.tabs[i].file_path is Some ==> r@.contains(i as usize),
            forall|k1: int, k2: int| 0 <= k1 < k2 < r@.len() ==> r@[k1] < r@[k2],
    {
        let mut r: Vec<usize> = Vec::new();
        let mut i: usize = 0;
        while i < self.tabs.len()
            invariant
                0 <= i <= self.tabs.len(),
                forall|k: int| 0 <= k < r@.len() ==> (#[trigger] r@[k]) < i,
                forall|k: int|
                    0 <= k < r@.len() ==> self.tabs[#[trigger] r@[k] as int].is_modified
                        && self.tabs[r@[k] as int].file_path is Some,
                forall|j: int|
                    0 <= j < i && (#[trigger] self.tabs[j]).is_modified
                        && self.tabs[j].file_path is Some ==> r@.contains(j as usize),
                forall|k1: int, k2: int| 0 <= k1 < k2 < r@.len() ==> r@[k1] < r@[k2],
            decreases self.tabs.len() - i,
        {
            if self.tabs[i].is_modified && self.tabs[i].file_path.is_some() {
                let ghost before = r@;
                r.push(i);
                assert forall|j: int|
                    0 <= j < i && (#[trigger] self.tabs[j]).is_modified
                        && self.tabs[j].file_path is Some implies r@.contains(j as usize) by {
                    let k = choose|k: int| 0 <= k < before.len() && before[k] == j as usize;
                    assert(r@[k] == j as usize);
                }
                assert(r@[r@.len() - 1] == i);
            }
            i = i + 1;
        }
        r
    }

    /// Records a successful auto-save or save of tab `index` to `path`.
    pub fn mark_saved(&mut self, index: usize, path: String)
        requires
            old(self).wf(),
            index < old(self).tabs.len(),
        ensures
            final(self).wf(),
            final(self).tabs.len() == old(self).tabs.len(),
            final(self).active_tab == old(self).active_tab,
            !final(self).tabs[index as int].is_modified,
            final(self).tabs[index as int].file_path == Some(path),
            final(self).tabs[index as int].status_message matches Some(m) && m@ == saved_status(
                path@,
            ),
            final(self).tabs[index as int].content == old(self).tabs[index as int].content,
            final(self).tabs[index as int].history() == old(self).tabs[index as int].history(),
            forall|j: int|
                0 <= j < final(self).tabs.len() && j != index ==> #[trigger] final(self).tabs[j]
                    == old(self).tabs[j],
    {
        self.tabs[index].mark_saved(path);
        assert forall|j: int| 0 <= j < self.tabs.len() implies (#[trigger] self.tabs[j]).wf() by {
            if j != index {
                assert(self.tabs[j] == old(self).tabs[j]);
            }
        }
    }

    /// The window title: the active tab's label followed by " - Notepad".
    pub fn title(&self) -> (r: String)
        requires
            self.wf(),
        ensures
            r@ == display_name(
                match self.active().file_path {
                    Some(p) => Some(p@),
                    None => None,
                },
                "Sans titre"@,
            ) + (if self.active().is_modified {
                " *"@
            } else {
                Seq::<char>::empty()
            }) + " - Notepad"@,
    {
        self.tabs[self.active_tab].title_label().concat(" - Notepad")
    }
}

} // verus!
