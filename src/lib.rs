//! Keeps a mirror tree of symbolic links in step with a source tree.
//!
//! The filesystem itself is reached by the caller; this crate holds the
//! decisions: rebasing paths, classifying a walk as empty, picking links
//! by target prefix, planning the expansion of a directory link and
//! spotting source entries that the mirror lacks.

pub mod diff;
pub mod links;
pub mod path;
pub mod probe;
pub mod shell;

pub use diff::{has_new_sub, EntryKind, SourceChild};
pub use links::{expand_symlink_dir, find_prefix_symlink, Symlink, SymlinkView, WalkEntry};
pub use path::{change_base_path, PathError, PathParts, PathView};
pub use probe::{is_empty_dir, WalkItem};
pub use shell::shell_expend_full;
