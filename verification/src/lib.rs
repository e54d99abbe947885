//! mdq: a verified core for a Markdown + frontmatter note index and query tool.
//!
//! Notes are plain text files that begin with a delimited metadata header
//! (frontmatter) followed by free-form body text. The library parses notes
//! into documents, maps documents to indexable term sets, parses the boolean
//! query language, evaluates queries against an in-memory index, and drives
//! the interactive session as a state machine. File and terminal I/O, and the
//! persistent storage of the index, live outside the library.

pub mod text;
pub mod document;
pub mod terms;
pub mod query;
pub mod index;
pub mod session;
pub mod walk;
