//! The session facade other layers program against: one handle that serves
//! both directions of the identity correspondence.
//!
//! An implementation owns a resolution session (database handle plus
//! caches) and hands out Identity Map fragments: the map of the container
//! owning a piece of syntax, and the session's definition-to-source map.

use vstd::prelude::*;
use crate::dyn_map::DynMap;
use crate::syntax::{AstPtr, InFile};

verus! {

pub trait Semantics {
    /// The Identity Map fragment of the container owning the given syntax,
    /// if the syntax can be classified.
    fn src_to_def_dyn_map(&mut self, src: InFile<AstPtr>) -> Option<DynMap>;

    /// The session's definition-to-source map.
    fn def_to_src_dyn_map(&mut self) -> DynMap;
}

} // verus!
