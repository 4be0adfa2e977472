//! A dump engine for a compiler's mid-level IR: which bodies to dump, where,
//! and their text (signature, scope tree, basic blocks, and a byte dump of the
//! allocations they refer to); and the file layer of a platform whose SDK
//! offers flat files only.

pub mod allocation;
pub mod collect;
pub mod fs;
pub mod gate;
pub mod mir;
pub mod naming;
pub mod pretty;
pub mod scope_tree;
pub mod text;
