//! The editing core of a multi-document plain-text editor: text buffers with
//! a cursor and selection, line/column addressing, bounded undo/redo history,
//! literal and regular-expression find/replace, decoding of file contents and
//! line-ending detection, and the session of open tabs. Work with the outside
//! world (files, dialogs, clipboard, clock, widgets) is handed back to the
//! caller as requests.
pub mod buffer;
pub mod datetime;
pub mod document;
pub mod encoding;
pub mod files;
pub mod history;
pub mod messages;
pub mod persist;
pub mod search;
pub mod session;
pub mod text;
