//! A file search engine: a lazy depth-first walk over a directory tree, a
//! paginated search session that filters what the walk yields, and a tab
//! container that routes messages to the one active panel.
//!
//! The library never touches the file system itself. Wherever a directory has
//! to be listed it says so in its result, and the caller hands the listing
//! back in.

pub mod application;
pub mod find;
pub mod message;
pub mod panel;
pub mod search;
pub mod text;
pub mod tree;
pub mod walk;
pub mod widget;

pub use application::FileSearch;
pub use find::{ResultItem, Search};
pub use message::{Command, Message, SearchMessage};
pub use search::{Pull, SearchPage, SearchUi, PAGE_SIZE};
pub use text::{get_extension_from_path, has_extension, ignore_entry};
pub use walk::{is_dir, DirEntry, Listed, RecursiveDirIterator, SearchError, Walk};
pub use widget::tab;
