//! Find and replace: query compilation, forward and backward search with
//! wrap-around, and replacement.
use vstd::prelude::*;

use crate::buffer::{copy_range, splice, string_from_chars};
use crate::document::Document;
use crate::history::{bounded_push, HistoryModel};
use crate::text::{
    byte_len, char_index, char_index_of, chars_of, is_boundary, lemma_boundary_le,
    lemma_boundary_skip, lemma_boundary_take, lemma_encode_len, lemma_line_start_le,
    lemma_start_of_line,
};

verus! {

/// Whether `p` is a pattern that the regular-expression engine accepts.
pub uninterp spec fn compiles(p: Seq<char>) -> bool;

/// The pattern that matches the text `q` literally.
pub uninterp spec fn escaped(q: Seq<char>) -> Seq<char>;

/// Byte range of the leftmost-first match of pattern `p` in `hay`.
pub uninterp spec fn first_match(p: Seq<char>, hay: Seq<char>) -> Option<(int, int)>;

/// Byte ranges of the successive non-overlapping matches of `p` in `hay`.
pub uninterp spec fn all_matches(p: Seq<char>, hay: Seq<char>) -> Seq<(int, int)>;

/// `hay` with every non-overlapping match of `p` replaced by `rep`.
pub uninterp spec fn replaced_all(p: Seq<char>, hay: Seq<char>, rep: Seq<char>) -> Seq<char>;

/// A compiled regular expression of the `regex` crate, carried opaquely.
#[verifier::external_type_specification]
#[verifier::external_body]
pub struct ExRegex(regex::Regex);

/// A compiled search pattern with the pattern text it was compiled from.
pub struct Matcher {
    re: regex::Regex,
    source: String,
}

impl Matcher {
    /// The pattern text.
    pub closed spec fn pattern(&self) -> Seq<char> {
        self.source@
    }

    /// Whether the pattern matches somewhere in `hay`.
    pub fn is_match(&self, hay: &str) -> (r: bool)
        ensures
            r == first_match(self.pattern(), hay@) is Some,
    {
        find_first(self, hay).is_some()
    }
}

/// Relies on `regex::escape`: the pattern matching `q` literally.
#[verifier::external_body]
fn escape_literal(q: &str) -> (r: String)
    ensures
        r@ == escaped(q@),
{
    regex::escape(q)
}

/// Relies on `regex::Regex::new`: compiles `p`, or fails on a pattern it
/// does not accept.
#[verifier::external_body]
fn compile(p: &str) -> (r: Option<Matcher>)
    ensures
        r is Some <==> compiles(p@),
        r matches Some(m) ==> m.pattern() == p@,
{
    match regex::Regex::new(p) {
        Ok(re) => Some(Matcher { re, source: p.to_string() }),
        Err(_) => None,
    }
}

/// Relies on `regex::Regex::find`: the first match as a byte range; its
/// start is at most its end and both fall on character boundaries.
#[verifier::external_body]
fn find_first(m: &Matcher, hay: &str) -> (r: Option<(usize, usize)>)
    ensures
        r is None <==> first_match(m.pattern(), hay@) is None,
        r matches Some((a, b)) ==> first_match(m.pattern(), hay@) == Some((a as int, b as int))
            && a <= b && is_boundary(hay@, a as int) && is_boundary(hay@, b as int),
{
    m.re.find(hay).map(|x| (x.start(), x.end()))
}

/// Relies on `regex::Regex::find_iter`: the successive matches as byte
/// ranges; each start is at most its end and both fall on character
/// boundaries.
#[verifier::external_body]
fn find_all(m: &Matcher, hay: &str) -> (r: Vec<(usize, usize)>)
    ensures
        r@.len() == all_matches(m.pattern(), hay@).len(),
        forall|i: int|
            0 <= i < r@.len() ==> all_matches(m.pattern(), hay@)[i] == (
                #[trigger] r@[i].0 as int,
                r@[i].1 as int,
            ) && r@[i].0 <= r@[i].1 && is_boundary(hay@, r@[i].0 as int) && is_boundary(
                hay@,
                r@[i].1 as int,
            ),
{
    m.re.find_iter(hay).map(|x| (x.start(), x.end())).collect()
}

/// Relies on `regex::Regex::replace_all`: every match replaced by `rep`;
/// the haystack comes back unchanged when nothing matches.
#[verifier::external_body]
fn replace_every(m: &Matcher, hay: &str, rep: &str) -> (r: String)
    ensures
        r@ == replaced_all(m.pattern(), hay@, rep@),
        first_match(m.pattern(), hay@) is None ==> r@ == hay@,
{
    m.re.replace_all(hay, rep).into_owned()
}

/// The text that replacing every match of `p` in `s` by `rep` leaves.
pub open spec fn replace_all_result(p: Seq<char>, s: Seq<char>, rep: Seq<char>) -> Seq<char> {
    if first_match(p, s) is None {
        s
    } else {
        replaced_all(p, s, rep)
    }
}

/// Once nothing matches any more, replacing everything again changes nothing.
pub proof fn lemma_replace_all_idempotent(p: Seq<char>, s: Seq<char>, rep: Seq<char>)
    requires
        first_match(p, replace_all_result(p, s, rep)) is None,
    ensures
        replace_all_result(p, replace_all_result(p, s, rep), rep) == replace_all_result(
            p,
            s,
            rep,
        ),
{
}

/// The pattern searched for: the query itself in regular-expression mode,
/// else the query escaped; prefixed with the case-insensitivity flag when
/// the search ignores case.
pub open spec fn pattern_of(q: Seq<char>, case_sensitive: bool, use_regex: bool) -> Seq<char> {
    let body = if use_regex {
        q
    } else {
        escaped(q)
    };
    if case_sensitive {
        body
    } else {
        seq!['(', '?', 'i', ')'] + body
    }
}

/// The first match at or after the boundary `from`, as its start and its
/// length in bytes.
pub open spec fn find_in_spec(p: Seq<char>, s: Seq<char>, from: int) -> Option<(int, int)> {
    match first_match(p, s.skip(char_index(s, from))) {
        Some((a, b)) => Some((from + a, b - a)),
        None => None,
    }
}

/// The last match before the boundary `until`, as its start and its length
/// in bytes.
pub open spec fn rfind_in_spec(p: Seq<char>, s: Seq<char>, until: int) -> Option<(int, int)> {
    let ms = all_matches(p, s.take(char_index(s, until)));
    if ms.len() == 0 {
        None
    } else {
        Some((ms.last().0, ms.last().1 - ms.last().0))
    }
}

pub open spec fn as_int_pair(r: Option<(usize, usize)>) -> Option<(int, int)> {
    match r {
        Some((a, b)) => Some((a as int, b as int)),
        None => None,
    }
}

/// Find/replace state shared by all documents.
pub struct SearchState {
    pub find_query: String,
    pub replace_query: String,
    pub case_sensitive: bool,
    pub use_regex: bool,
    /// Byte offset where the next forward search resumes.
    pub find_cursor: usize,
}

impl SearchState {
    /// Empty queries, case-sensitive literal search, cursor at 0.
    pub fn new() -> (r: SearchState)
        ensures
            r.find_query@.len() == 0,
            r.replace_query@.len() == 0,
            r.case_sensitive,
            !r.use_regex,
            r.find_cursor == 0,
    {
        SearchState {
            find_query: String::new(),
            replace_query: String::new(),
            case_sensitive: true,
            use_regex: false,
            find_cursor: 0,
        }
    }

    /// The pattern the current query and toggles stand for.
    pub open spec fn pattern(&self) -> Seq<char> {
        pattern_of(self.find_query@, self.case_sensitive, self.use_regex)
    }

    /// Compiles the query: escaped unless in regular-expression mode, with
    /// the case-insensitivity flag unless the search is case-sensitive.
    /// `None` when the pattern does not compile.
    pub fn build_regex(&self) -> (r: Option<Matcher>)
        ensures
            r is Some <==> compiles(self.pattern()),
            r matches Some(m) ==> m.pattern() == self.pattern(),
    {
        let body = if self.use_regex {
            self.find_query.clone()
        } else {
            escape_literal(self.find_query.as_str())
        };
        if self.case_sensitive {
            compile(body.as_str())
        } else {
            let mut full: Vec<char> = Vec::new();
            full.push('(');
            full.push('?');
            full.push('i');
            full.push(')');
            let tail = chars_of(body.as_str());
            copy_range(&tail, 0, tail.len(), &mut full);
            assert(full@ =~= seq!['(', '?', 'i', ')'] + body@);
            let pattern = string_from_chars(&full);
            compile(pattern.as_str())
        }
    }

    /// The first match in `haystack` at or after the byte offset `from`, as
    /// (start, length) in bytes; `None` when nothing matches or the pattern
    /// does not compile.
    pub fn find_in(&self, haystack: &str, from: usize) -> (r: Option<(usize, usize)>)
        requires
            is_boundary(haystack@, from as int),
        ensures
            as_int_pair(r) == (if compiles(self.pattern()) {
                find_in_spec(self.pattern(), haystack@, from as int)
            } else {
                None
            }),
            r matches Some((a, l)) ==> is_boundary(haystack@, a as int) && is_boundary(
                haystack@,
                a + l,
            ),
    {
        let m = match self.build_regex() {
            Some(m) => m,
            None => {
                return None;
            },
        };
        let ghost s = haystack@;
        let total = crate::text::byte_length(haystack);
        proof {
            lemma_encode_len(s);
            lemma_boundary_le(s, from as int);
        }
        let chars = chars_of(haystack);
        let k = match char_index_of(&chars, from) {
            Some(k) => k,
            None => {
                return None;
            },
        };
        let mut tail: Vec<char> = Vec::new();
        copy_range(&chars, k, chars.len(), &mut tail);
        assert(tail@ =~= s.skip(k as int));
        let suffix = string_from_chars(&tail);
        match find_first(&m, suffix.as_str()) {
            Some((a, b)) => {
                proof {
                    lemma_boundary_skip(s, k as int, a as int);
                    lemma_boundary_skip(s, k as int, b as int);
                    lemma_boundary_le(s, from + b);
                    lemma_boundary_le(s.skip(k as int), b as int);
                }
                Some((from + a, b - a))
            },
            None => None,
        }
    }

    /// The last match in `haystack` before the byte offset `until`, as
    /// (start, length) in bytes; `None` when nothing matches or the pattern
    /// does not compile.
    pub fn rfind_in(&self, haystack: &str, until: usize) -> (r: Option<(usize, usize)>)
        requires
            is_boundary(haystack@, until as int),
        ensures
            as_int_pair(r) == (if compiles(self.pattern()) {
                rfind_in_spec(self.pattern(), haystack@, until as int)
            } else {
                None
            }),
            r matches Some((a, l)) ==> is_boundary(haystack@, a as int) && is_boundary(
                haystack@,
                a + l,
            ),
    {
        let m = match self.build_regex() {
            Some(m) => m,
            None => {
                return None;
            },
        };
        let ghost s = haystack@;
        let chars = chars_of(haystack);
        let k = match char_index_of(&chars, until) {
            Some(k) => k,
            None => {
                return None;
            },
        };
        let mut head: Vec<char> = Vec::new();
        copy_range(&chars, 0, k, &mut head);
        assert(head@ =~= s.take(k as int));
        let prefix = string_from_chars(&head);
        let all = find_all(&m, prefix.as_str());
        let n = all.len();
        if n == 0 {
            None
        } else {
            let (a, b) = all[n - 1];
            proof {
                assert(all@[n - 1].0 == a);
                lemma_boundary_take(s, k as int, a as int);
                lemma_boundary_take(s, k as int, b as int);
            }
            Some((a, b - a))
        }
    }
}

/// What a forward search finds, as (start, length) in bytes: the first match
/// from the find cursor (clamped to the end of the text) on, or else, wrapping
/// around, the first match from the start. A cursor that falls inside a
/// character skips the first probe.
pub open spec fn find_next_spec(p: Seq<char>, s: Seq<char>, fc: int) -> Option<(int, int)> {
    if !compiles(p) {
        None
    } else {
        let tb = byte_len(s) as int;
        let from = if fc < tb {
            fc
        } else {
            tb
        };
        let first = if from < tb && is_boundary(s, from) {
            find_in_spec(p, s, from)
        } else {
            None
        };
        if first is Some {
            first
        } else {
            find_in_spec(p, s, 0)
        }
    }
}

/// What a backward search finds, as (start, length) in bytes: the last match
/// before one byte short of the find cursor, or else, wrapping around, the
/// last match in the whole text. A bound that falls inside a character skips
/// the first probe.
pub open spec fn find_previous_spec(p: Seq<char>, s: Seq<char>, fc: int) -> Option<(int, int)> {
    if !compiles(p) {
        None
    } else {
        let until = if fc > 0 {
            fc - 1
        } else {
            0
        };
        let first = if until > 0 && is_boundary(s, until) {
            rfind_in_spec(p, s, until)
        } else {
            None
        };
        if first is Some {
            first
        } else {
            rfind_in_spec(p, s, byte_len(s) as int)
        }
    }
}

/// `p` matches the whole of `sel`.
pub open spec fn full_match(p: Seq<char>, sel: Seq<char>) -> bool {
    &&& compiles(p)
    &&& first_match(p, sel) matches Some((a, b))
    &&& b - a == byte_len(sel)
}

/// The match (start `a`, length `l` in bytes) is selected in `d1`, and the
/// find cursor resumes after it; nothing else changed from `d0`, `s0`.
pub open spec fn highlighted(
    d0: Document,
    d1: Document,
    s0: SearchState,
    s1: SearchState,
    a: int,
    l: int,
) -> bool {
    let t = d0.content.view_text();
    &&& d1.wf()
    &&& d1.content.view_text() == t
    &&& l > 0 ==> d1.content.view_anchor() == Some(char_index(t, a))
    &&& l == 0 ==> d1.content.view_anchor() is None
    &&& d1.content.view_cursor() == char_index(t, a + l)
    &&& d1.history() == d0.history()
    &&& d1.is_modified == d0.is_modified
    &&& d1.file_path == d0.file_path
    &&& s1.find_cursor == a + l
    &&& s1.find_query == s0.find_query
    &&& s1.replace_query == s0.replace_query
    &&& s1.case_sensitive == s0.case_sensitive
    &&& s1.use_regex == s0.use_regex
}

/// What a forward search leaves (see `find_next_spec`): for an empty query or
/// text, or no match, nothing changes; otherwise the match is selected.
pub open spec fn find_next_post(d0: Document, d1: Document, s0: SearchState, s1: SearchState) -> bool {
    let t = d0.content.view_text();
    let found = find_next_spec(s0.pattern(), t, s0.find_cursor as int);
    if s0.find_query@.len() == 0 || t.len() == 0 {
        d1 == d0 && s1 == s0
    } else {
        match found {
            Some((a, l)) => highlighted(d0, d1, s0, s1, a, l),
            None => d1 == d0 && s1 == s0,
        }
    }
}

/// What a backward search leaves (see `find_previous_spec`).
pub open spec fn find_previous_post(d0: Document, d1: Document, s0: SearchState, s1: SearchState) -> bool {
    let t = d0.content.view_text();
    let found = find_previous_spec(s0.pattern(), t, s0.find_cursor as int);
    if s0.find_query@.len() == 0 || t.len() == 0 {
        d1 == d0 && s1 == s0
    } else {
        match found {
            Some((a, l)) => highlighted(d0, d1, s0, s1, a, l),
            None => d1 == d0 && s1 == s0,
        }
    }
}

/// What replace-and-advance leaves: a selection that the query matches
/// whole is replaced (one undo step, document modified), then the search
/// moves on from the find cursor in the resulting text.
pub open spec fn replace_one_post(d0: Document, d1: Document, s0: SearchState, s1: SearchState) -> bool {
    let t = d0.content.view_text();
    let (lo, hi) = d0.content.selection_range();
    let matched = lo < hi && full_match(s0.pattern(), t.subrange(lo, hi));
    let mid = if matched {
        splice(t, lo, hi, s0.replace_query@)
    } else {
        t
    };
    let found = find_next_spec(s0.pattern(), mid, s0.find_cursor as int);
    &&& d1.wf()
    &&& s0.find_query@.len() == 0 ==> d1 == d0 && s1 == s0
    &&& s0.find_query@.len() > 0 ==> {
        &&& d1.content.view_text() == mid
        &&& matched ==> d1.is_modified && d1.history() == (HistoryModel {
            text: mid,
            undo: bounded_push(d0.history().undo, t, d0.history().max),
            redo: Seq::empty(),
            max: d0.history().max,
        })
        &&& !matched ==> d1.history() == d0.history() && d1.is_modified == d0.is_modified
        &&& d1.file_path == d0.file_path
        &&& (mid.len() > 0 && found is Some) ==> {
            let (a, l) = found->0;
            &&& d1.content.view_cursor() == char_index(mid, a + l)
            &&& l > 0 ==> d1.content.view_anchor() == Some(char_index(mid, a))
        }
        &&& s1.find_cursor == (match found {
            Some((a, l)) => if mid.len() > 0 {
                a + l
            } else {
                s0.find_cursor as int
            },
            None => s0.find_cursor as int,
        })
    }
}

/// What replace-all leaves (see `replace_all_result`): `changed` exactly when
/// the query is not empty, compiles, and the replacement changes the text;
/// then the result is installed (cursor at its end) as one undo step.
pub open spec fn replace_all_post(d0: Document, d1: Document, s: SearchState, changed: bool) -> bool {
    let t = d0.content.view_text();
    let p = s.pattern();
    let n = replace_all_result(p, t, s.replace_query@);
    &&& d1.wf()
    &&& changed == (s.find_query@.len() > 0 && compiles(p) && n != t)
    &&& !changed ==> d1 == d0
    &&& changed ==> {
        &&& d1.content.view_text() == n
        &&& d1.content.view_cursor() == n.len()
        &&& d1.is_modified
        &&& d1.history() == (HistoryModel {
            text: n,
            undo: bounded_push(d0.history().undo, t, d0.history().max),
            redo: Seq::empty(),
            max: d0.history().max,
        })
    }
}

/// With the find cursor at or past the end of the text, a forward search
/// finds the first match of the whole text.
pub proof fn lemma_find_next_wraps(p: Seq<char>, s: Seq<char>, fc: int)
    requires
        fc >= byte_len(s),
    ensures
        find_next_spec(p, s, fc) == (if compiles(p) {
            find_in_spec(p, s, 0)
        } else {
            None
        }),
{
}

impl Document {
    /// Extends the selection `count` characters to the right.
    fn select_chars(&mut self, count: usize)
        requires
            old(self).wf(),
        ensures
            final(self).wf(),
            final(self).content.view_text() == old(self).content.view_text(),
            final(self).content.view_cursor() == (if old(self).content.view_cursor() + count
                < old(self).content.view_text().len() {
                old(self).content.view_cursor() + count
            } else {
                old(self).content.view_text().len() as int
            }),
            count > 0 ==> final(self).content.view_anchor() == Some(
                match old(self).content.view_anchor() {
                    Some(a) => a,
                    None => old(self).content.view_cursor(),
                },
            ),
            count == 0 ==> final(self).content.view_anchor() == old(self).content.view_anchor(),
            final(self).history() == old(self).history(),
            final(self).is_modified == old(self).is_modified,
            final(self).file_path == old(self).file_path,
    {
        let ghost c0 = self.content.view_cursor();
        let ghost a0 = match self.content.view_anchor() {
            Some(a) => a,
            None => c0,
        };
        let ghost len = self.content.view_text().len();
        let mut i: usize = 0;
        while i < count
            invariant
                self.wf(),
                self.content.view_text() == old(self).content.view_text(),
                len == self.content.view_text().len(),
                0 <= c0 <= len,
                i <= count,
                self.content.view_cursor() == (if c0 + i < len {
                    c0 + i
                } else {
                    len as int
                }),
                a0 == (match old(self).content.view_anchor() {
                    Some(a) => a,
                    None => c0,
                }),
                i > 0 ==> self.content.view_anchor() == Some(a0),
                i == 0 ==> self.content.view_anchor() == old(self).content.view_anchor(),
                self.history() == old(self).history(),
                self.is_modified == old(self).is_modified,
                self.file_path == old(self).file_path,
            decreases count - i,
        {
            let ghost before = self.content.view_anchor();
            self.content.select_right();
            assert(self.content.view_anchor() == Some(
                match before {
                    Some(a) => a,
                    None => c0,
                },
            ));
            i = i + 1;
        }
    }

    /// Selects the match at byte `byte_pos` of `match_len` bytes in `text`
    /// (the live text) and sets the find cursor just after it.
    fn highlight_match(
        &mut self,
        search: &mut SearchState,
        byte_pos: usize,
        match_len: usize,
        text: &str,
    )
        requires
            old(self).wf(),
            text@ == old(self).content.view_text(),
            is_boundary(text@, byte_pos as int),
            is_boundary(text@, byte_pos + match_len),
            byte_pos + match_len <= usize::MAX,
        ensures
            highlighted(*old(self), *final(self), *old(search), *final(search), byte_pos as int, match_len as int),
    {
        let ghost s = text@;
        search.find_cursor = byte_pos + match_len;
        let (line, col) = crate::text::byte_pos_to_line_col(text, byte_pos);
        let ghost k = char_index(s, byte_pos as int);
        proof {
            lemma_boundary_le(s, byte_pos as int);
            lemma_boundary_le(s, byte_pos + match_len);
            crate::document::lemma_line_of_bound(s, k);
            lemma_start_of_line(s, k);
            lemma_line_start_le(s, k);
            if char_index(s, byte_pos + match_len) < k {
                crate::text::lemma_byte_offset_mono(s, char_index(s, byte_pos + match_len), k);
            }
        }
        self.navigate_to(line, col);
        assert(self.content.view_cursor() == k);
        let chars = chars_of(text);
        let start = match char_index_of(&chars, byte_pos) {
            Some(i) => i,
            None => 0,
        };
        let end = match char_index_of(&chars, byte_pos + match_len) {
            Some(i) => i,
            None => start,
        };
        self.select_chars(end - start);
    }

    /// Finds the next match of the query (see `find_next_spec`) and selects
    /// it. Nothing happens for an empty query, an empty text or no match.
    pub fn find_next(&mut self, search: &mut SearchState)
        requires
            old(self).wf(),
        ensures
            find_next_post(*old(self), *final(self), *old(search), *final(search)),
    {
        if search.find_query.as_str().is_empty() || self.content.len() == 0 {
            return;
        }
        let text = self.content.text();
        let ghost t = text@;
        let tb = crate::text::byte_length(text.as_str());
        let search_from = if search.find_cursor < tb {
            search.find_cursor
        } else {
            tb
        };
        let on_boundary = char_index_of(self.content.chars(), search_from).is_some();
        let first = if search_from < tb && on_boundary {
            search.find_in(text.as_str(), search_from)
        } else {
            None
        };
        proof {
            crate::text::lemma_byte_offset_zero(t);
            crate::text::lemma_char_index(t, 0, 0);
        }
        let found = match first {
            Some(x) => Some(x),
            None => search.find_in(text.as_str(), 0),
        };
        match found {
            Some((pos, len)) => {
                proof {
                    lemma_boundary_le(t, pos + len);
                }
                self.highlight_match(search, pos, len, text.as_str());
            },
            None => {},
        }
    }

    /// Finds the previous match of the query (see `find_previous_spec`) and
    /// selects it. Nothing happens for an empty query, an empty text or no
    /// match.
    pub fn find_previous(&mut self, search: &mut SearchState)
        requires
            old(self).wf(),
        ensures
            find_previous_post(*old(self), *final(self), *old(search), *final(search)),
    {
        if search.find_query.as_str().is_empty() || self.content.len() == 0 {
            return;
        }
        let text = self.content.text();
        let ghost t = text@;
        let tb = crate::text::byte_length(text.as_str());
        let search_until = if search.find_cursor > 0 {
            search.find_cursor - 1
        } else {
            0
        };
        let on_boundary = char_index_of(self.content.chars(), search_until).is_some();
        let first = if search_until > 0 && on_boundary {
            search.rfind_in(text.as_str(), search_until)
        } else {
            None
        };
        proof {
            crate::text::lemma_byte_offset_full(t);
            crate::text::lemma_char_index(t, tb as int, t.len() as int);
        }
        let found = match first {
            Some(x) => Some(x),
            None => search.rfind_in(text.as_str(), tb),
        };
        match found {
            Some((pos, len)) => {
                proof {
                    lemma_boundary_le(t, pos + len);
                }
                self.highlight_match(search, pos, len, text.as_str());
            },
            None => {},
        }
    }

    /// When the selection is exactly a match of the query, replaces it by
    /// the replacement text (after a boundary snapshot); either way then
    /// moves on to the next match (see `find_next`). Nothing happens for an
    /// empty query.
    pub fn replace_one(&mut self, search: &mut SearchState)
        requires
            old(self).wf(),
            old(self).content.view_text().len() + old(search).replace_query@.len() <= usize::MAX,
        ensures
            replace_one_post(*old(self), *final(self), *old(search), *final(search)),
    {
        if search.find_query.as_str().is_empty() {
            return;
        }
        let ghost t = self.content.view_text();
        match self.content.selection() {
            Some(selected) => {
                let is_match = match search.build_regex() {
                    Some(m) => match find_first(&m, selected.as_str()) {
                        Some((a, b)) => b - a == crate::text::byte_length(selected.as_str()),
                        None => false,
                    },
                    None => false,
                };
                if is_match {
                    self.save_snapshot();
                    let replacement = chars_of(search.replace_query.as_str());
                    self.content.replace_selection(&replacement);
                    self.is_modified = true;
                    self.update_stats_cache();
                }
            },
            None => {},
        }
        self.find_next(search);
    }

    /// Replaces every match of the query in the whole text and installs the
    /// result as a fresh buffer (cursor at its end), after one boundary
    /// snapshot. Returns whether the text changed; nothing happens for an
    /// empty query, a pattern that does not compile, or a replacement that
    /// leaves the text as it was.
    pub fn replace_all(&mut self, search: &SearchState) -> (changed: bool)
        requires
            old(self).wf(),
        ensures
            replace_all_post(*old(self), *final(self), *search, changed),
    {
        if search.find_query.as_str().is_empty() {
            return false;
        }
        let m = match search.build_regex() {
            Some(m) => m,
            None => {
                return false;
            },
        };
        let text = self.content.text();
        let new_text = replace_every(&m, text.as_str(), search.replace_query.as_str());
        if text != new_text {
            self.save_snapshot();
            self.install_text(new_text.as_str());
            self.is_modified = true;
            true
        } else {
            false
        }
    }
}

} // verus!
