//! The definition-to-source cache of one query session.
//!
//! The semantics-to-syntax direction looks each definition's pointer up in
//! the item data; within a session the answers are memoized in an Identity
//! Map keyed the reverse way (definition to pointer), so repeated source
//! queries for one definition hit the cache.

use vstd::prelude::*;
use crate::db::Database;
use crate::dyn_map::{DefIdPolicy, DefValue, DynMap, KeyKind};
use crate::syntax::AstPtr;

verus! {

/// A cache that serves definition-to-pointer lookups.
pub trait SrcDefCacheContext: Sized {
    /// Whether the cache is usable.
    spec fn c_wf(self) -> bool;

    /// The cached pointer of a definition, if any.
    spec fn c_view(self, key: KeyKind, def: DefValue) -> Option<AstPtr>;

    fn get(&self, map_key: DefIdPolicy, key: DefValue) -> (r: Option<AstPtr>)
        requires
            self.c_wf(),
        ensures
            r == self.c_view(map_key.key, key),
    ;

    fn insert(&mut self, map_key: DefIdPolicy, key: DefValue, value: AstPtr)
        requires
            old(self).c_wf(),
        ensures
            final(self).c_wf(),
            forall|k2: KeyKind, d2: DefValue| #[trigger] final(self).c_view(k2, d2) == if k2
                == map_key.key && d2 == key {
                Some(value)
            } else {
                old(self).c_view(k2, d2)
            },
    ;

    /// The cached pointer, or the given freshly computed one, which is then
    /// cached.
    fn get_or_inset_with(&mut self, map_key: DefIdPolicy, key: DefValue, value: AstPtr) -> (r:
        AstPtr)
        requires
            old(self).c_wf(),
        ensures
            final(self).c_wf(),
            r == match old(self).c_view(map_key.key, key) {
                Some(p) => p,
                None => value,
            },
            final(self).c_view(map_key.key, key) == Some(r),
            forall|k2: KeyKind, d2: DefValue|
                !(k2 == map_key.key && d2 == key) ==> #[trigger] final(self).c_view(k2, d2) == old(
                    self,
                ).c_view(k2, d2),
    ;
}

/// The session's definition-to-source cache: one Identity Map populated in
/// the reverse direction.
pub struct DefToSrcCacheContext {
    pub cache: DynMap,
}

impl DefToSrcCacheContext {
    pub fn new() -> (r: DefToSrcCacheContext)
        ensures
            r.c_wf(),
            forall|k2: KeyKind, d2: DefValue| #[trigger] r.c_view(k2, d2) is None,
    {
        DefToSrcCacheContext { cache: DynMap::new() }
    }

    /// The cached pointer of a definition under a key descriptor, if any.
    pub fn entry(&mut self, map_key: DefIdPolicy, key: DefValue) -> (r: Option<AstPtr>)
        requires
            old(self).c_wf(),
        ensures
            *final(self) == *old(self),
            r == old(self).c_view(map_key.key, key),
    {
        map_key.get(&self.cache, &key)
    }
}

impl SrcDefCacheContext for DefToSrcCacheContext {
    open spec fn c_wf(self) -> bool {
        self.cache.wf()
    }

    open spec fn c_view(self, key: KeyKind, def: DefValue) -> Option<AstPtr> {
        self.cache.spec_rev(key, def)
    }

    fn get(&self, map_key: DefIdPolicy, key: DefValue) -> (r: Option<AstPtr>) {
        map_key.get(&self.cache, &key)
    }

    fn insert(&mut self, map_key: DefIdPolicy, key: DefValue, value: AstPtr) {
        map_key.insert(&mut self.cache, key, value);
    }

    fn get_or_inset_with(&mut self, map_key: DefIdPolicy, key: DefValue, value: AstPtr) -> (r:
        AstPtr) {
        match map_key.get(&self.cache, &key) {
            Some(p) => p,
            None => {
                map_key.insert(&mut self.cache, key, value);
                value
            },
        }
    }
}

} // verus!
