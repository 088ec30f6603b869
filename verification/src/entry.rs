//! One entry of a directory walk, as plain values.
use vstd::prelude::*;

verus! {

/// A file or directory met while walking the tree.
#[derive(Debug, Clone)]
pub struct Entry {
    /// The path of the entry as the walk reached it, the root in front.
    pub path: String,
    /// The last component of the path.
    pub file_name: String,
    /// How many directories lie between the root and the entry; the root
    /// itself has depth 0.
    pub depth: usize,
    /// Whether the entry is a directory.
    pub is_dir: bool,
    /// Whether the path leads to a regular file.
    pub is_file: bool,
    /// The content of the file where it could be read as text.
    pub content: Option<String>,
}

} // verus!
