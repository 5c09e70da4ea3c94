//! Bidirectional mapping between surface syntax and semantic definitions.
//!
//! Given a syntax node (possibly inside a macro expansion), recover the
//! semantic definition it belongs to; given a semantic definition identifier,
//! recover the syntax that defines it.  Results are cached per container and
//! file within one query session.

use vstd::prelude::*;

pub mod caches;
pub mod child_by_source;
pub mod db;
pub mod dyn_map;
pub mod has_source;
pub mod ids;
pub mod laws;
pub mod semantics;
pub mod source_to_def;
pub mod src;
pub mod src_def_cache;
pub mod syntax;

verus! {

/// A real (on-disk) file, identified by an interned index.
#[derive(Clone, Copy, PartialEq, Eq, Hash, Debug, Structural)]
pub struct FileId(pub u32);

} // verus!
