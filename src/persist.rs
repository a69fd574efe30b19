//! What is kept of a session between runs: the open tabs and the active one.
use vstd::prelude::*;

use crate::session::Notepad;

verus! {

/// One tab as it is kept between runs.
pub struct SessionTab {
    pub file_path: Option<String>,
    pub unsaved_content: Option<String>,
    pub is_modified: bool,
}

/// The tabs kept between runs, in order, and the active one.
pub struct SessionData {
    pub tabs: Vec<SessionTab>,
    pub active_tab: usize,
}

/// `dir` joined with `name` as a path: a separator goes between them unless
/// `dir` is empty or already ends with one.
pub open spec fn join_spec(dir: Seq<char>, name: Seq<char>) -> Seq<char> {
    if dir.len() == 0 || dir.last() == '/' {
        dir + name
    } else {
        dir + seq!['/'] + name
    }
}

impl Default for SessionData {
    fn default() -> (r: SessionData)
        ensures
            r.tabs.len() == 0,
            r.active_tab == 0,
    {
        SessionData { tabs: Vec::new(), active_tab: 0 }
    }
}

impl SessionData {
    /// The session file in the directory `dir`.
    pub fn path(dir: &str) -> (r: String)
        ensures
            r@ == join_spec(dir@, "session.json"@),
    {
        let chars = crate::text::chars_of(dir);
        if chars.len() == 0 || chars[chars.len() - 1] == '/' {
            dir.to_owned().concat("session.json")
        } else {
            let r = dir.to_owned().concat("/").concat("session.json");
            proof {
                reveal_strlit("/");
            }
            assert(r@ =~= dir@ + seq!['/'] + "session.json"@);
            r
        }
    }

    /// The tabs of `n`: each with its path, its text when it holds unsaved
    /// changes or has no path, and its modified flag.
    pub fn capture(n: &Notepad) -> (r: SessionData)
        requires
            n.wf(),
        ensures
            r.active_tab == n.active_tab,
            r.tabs.len() == n.tabs.len(),
            forall|i: int|
                0 <= i < r.tabs.len() ==> {
                    let t = #[trigger] r.tabs[i];
                    let d = n.tabs[i];
                    &&& t.file_path == d.file_path
                    &&& t.is_modified == d.is_modified
                    &&& (d.is_modified || d.file_path is None) ==> (t.unsaved_content matches Some(c) && c@ == d.content.view_text())
                    &&& !(d.is_modified || d.file_path is None) ==> t.unsaved_content is None
                },
    {
        let mut tabs: Vec<SessionTab> = Vec::new();
        let mut i: usize = 0;
        while i < n.tabs.len()
            invariant
                0 <= i <= n.tabs.len(),
                tabs.len() == i,
                forall|j: int|
                    0 <= j < i ==> {
                        let t = #[trigger] tabs[j];
                        let d = n.tabs[j];
                        &&& t.file_path == d.file_path
                        &&& t.is_modified == d.is_modified
                        &&& (d.is_modified || d.file_path is None) ==> (t.unsaved_content matches Some(c) && c@ == d.content.view_text())
                        &&& !(d.is_modified || d.file_path is None) ==> t.unsaved_content is None
                    },
            decreases n.tabs.len() - i,
        {
            let d = &n.tabs[i];
            let keep_text = d.is_modified || d.file_path.is_none();
            let unsaved_content = if keep_text {
                Some(d.content.text())
            } else {
                None
            };
            let file_path = match &d.file_path {
                Some(p) => Some(p.clone()),
                None => None,
            };
            tabs.push(SessionTab { file_path, unsaved_content, is_modified: d.is_modified });
            i = i + 1;
        }
        SessionData { tabs, active_tab: n.active_tab }
    }
}

} // verus!
