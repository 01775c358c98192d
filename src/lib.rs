//! A read-only filesystem view of a git repository's object graph.
pub mod fs;
pub mod git;
pub mod inode;
