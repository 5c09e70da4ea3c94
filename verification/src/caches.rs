//! The session cache primitives.
//!
//! The surrounding incremental-computation engine supplies the memoization
//! and caching primitives this layer consumes: hash maps with a fast
//! deterministic hasher, and a small-vector type for the file-to-modules
//! index.  Both come from outside crates and are used through the trusted
//! declarations below; everything stored in them is this library's own data.

use vstd::prelude::*;
use std::collections::HashMap;
use crate::FileId;
use crate::ids::{ChildContainer, HirFileId, MacroFileId, ModuleId};
use crate::db::ExpansionInfo;
use crate::dyn_map::DynMap;

verus! {

/// Declares `rustc_hash::FxBuildHasher`: the deterministic, seed-free
/// builder of the Fx hasher.  Its determinism is what lets the map wrappers
/// below speak of map contents across calls.
#[verifier::external_type_specification]
#[verifier::external_body]
pub struct ExFxBuildHasher(rustc_hash::FxBuildHasher);

/// The file-to-modules index: module ids held in a `smallvec::SmallVec`
/// with inline capacity for the common one-module case.
#[verifier::external_body]
pub struct ModuleVec {
    inner: smallvec::SmallVec<[ModuleId; 1]>,
}

/// Contents of the dynmap cache's backing map.
pub open spec fn dynmap_cache_view(m: DynMapCacheMap) -> Map<(ChildContainer, HirFileId), DynMap> {
    m@
}

/// Contents of the expansion-metadata cache's backing map.
pub open spec fn expansion_cache_view(m: ExpansionCacheMap) -> Map<MacroFileId, ExpansionInfo> {
    m@
}

/// Contents of the file-to-modules cache's backing map.
pub open spec fn file_cache_view(m: FileCacheMap) -> Map<FileId, ModuleVec> {
    m@
}

/// Whether a dynmap cache holds nothing.
pub open spec fn dynmap_cache_is_empty(m: DynMapCacheMap) -> bool {
    m@ == Map::<(ChildContainer, HirFileId), DynMap>::empty()
}

/// Whether an expansion-metadata cache holds nothing.
pub open spec fn expansion_cache_is_empty(m: ExpansionCacheMap) -> bool {
    m@ == Map::<MacroFileId, ExpansionInfo>::empty()
}

/// Whether a file-to-modules cache holds nothing.
pub open spec fn file_cache_is_empty(m: FileCacheMap) -> bool {
    m@ == Map::<FileId, ModuleVec>::empty()
}

/// The dynmap cache's backing map, keyed by container and file.
pub type DynMapCacheMap = HashMap<(ChildContainer, HirFileId), DynMap, rustc_hash::FxBuildHasher>;

/// The expansion-metadata cache's backing map, keyed by expansion file.
pub type ExpansionCacheMap = HashMap<MacroFileId, ExpansionInfo, rustc_hash::FxBuildHasher>;

/// The file-to-modules cache's backing map, keyed by file.
pub type FileCacheMap = HashMap<FileId, ModuleVec, rustc_hash::FxBuildHasher>;

/// The elements of a file-to-modules index vector, in order.
pub uninterp spec fn module_vec_view(v: ModuleVec) -> Seq<ModuleId>;

/// Relies on `smallvec::SmallVec::new`: the new vector is empty.
#[verifier::external_body]
pub(crate) fn module_vec_new() -> (r: ModuleVec)
    ensures
        module_vec_view(r) == Seq::<ModuleId>::empty(),
{
    ModuleVec { inner: smallvec::SmallVec::new() }
}

/// Relies on `smallvec::SmallVec::push`: appends one element at the end.
#[verifier::external_body]
pub(crate) fn module_vec_push(v: &mut ModuleVec, m: ModuleId)
    ensures
        module_vec_view(*final(v)) == module_vec_view(*old(v)).push(m),
{
    v.inner.push(m);
}

/// Relies on `smallvec::SmallVec::len` (through its slice deref).
#[verifier::external_body]
pub fn module_vec_len(v: &ModuleVec) -> (r: usize)
    ensures
        r == module_vec_view(*v).len(),
{
    v.inner.len()
}

/// Relies on `slice::get` on the vector's slice deref: the element at an
/// in-bounds index.
#[verifier::external_body]
pub fn module_vec_get(v: &ModuleVec, i: usize) -> (r: Option<ModuleId>)
    ensures
        r == if i < module_vec_view(*v).len() {
            Some(module_vec_view(*v)[i as int])
        } else {
            None::<ModuleId>
        },
{
    v.inner.get(i).copied()
}

/// Relies on `smallvec::SmallVec::clone`: an element-wise copy of the
/// vector, built from its slice.
#[verifier::external_body]
pub(crate) fn module_vec_clone(v: &ModuleVec) -> (r: ModuleVec)
    ensures
        module_vec_view(r) == module_vec_view(*v),
{
    ModuleVec { inner: v.inner.clone() }
}

/// Relies on `rustc_hash::FxHashMap` (`HashMap` with the deterministic Fx
/// hasher) behaving as a map from keys compared by their derived structural
/// equality: `default` returns an empty map.
#[verifier::external_body]
pub(crate) fn dynmap_cache_new() -> (r: DynMapCacheMap)
    ensures
        dynmap_cache_is_empty(r),
{
    rustc_hash::FxHashMap::default()
}

/// Relies on `HashMap::get` with the Fx hasher: the value most recently
/// inserted for a key.
#[verifier::external_body]
pub(crate) fn dynmap_cache_get<'a>(m: &'a DynMapCacheMap, k: &(ChildContainer, HirFileId)) -> (r:
    Option<&'a DynMap>)
    ensures
        match r {
            Some(v) => m@.contains_key(*k) && *v == m@[*k],
            None => !m@.contains_key(*k),
        },
{
    m.get(k)
}

/// Relies on `HashMap::insert` with the Fx hasher: adds or replaces the
/// key's value.
#[verifier::external_body]
pub(crate) fn dynmap_cache_insert(m: &mut DynMapCacheMap, k: (ChildContainer, HirFileId), v: DynMap)
    ensures
        final(m)@ == old(m)@.insert(k, v),
{
    m.insert(k, v);
}

/// Relies on `rustc_hash::FxHashMap::default`: an empty map.
#[verifier::external_body]
pub(crate) fn expansion_cache_new() -> (r: ExpansionCacheMap)
    ensures
        expansion_cache_is_empty(r),
{
    rustc_hash::FxHashMap::default()
}

/// Relies on `HashMap::get` with the Fx hasher.
#[verifier::external_body]
pub(crate) fn expansion_cache_get(m: &ExpansionCacheMap, k: MacroFileId) -> (r: Option<ExpansionInfo>)
    ensures
        match r {
            Some(v) => m@.contains_key(k) && v == m@[k],
            None => !m@.contains_key(k),
        },
{
    m.get(&k).copied()
}

/// Relies on `HashMap::insert` with the Fx hasher.
#[verifier::external_body]
pub(crate) fn expansion_cache_insert(m: &mut ExpansionCacheMap, k: MacroFileId, v: ExpansionInfo)
    ensures
        final(m)@ == old(m)@.insert(k, v),
{
    m.insert(k, v);
}

/// Relies on `rustc_hash::FxHashMap::default`: an empty map.
#[verifier::external_body]
pub(crate) fn file_cache_new() -> (r: FileCacheMap)
    ensures
        file_cache_is_empty(r),
{
    rustc_hash::FxHashMap::default()
}

/// Relies on `HashMap::get` with the Fx hasher.
#[verifier::external_body]
pub(crate) fn file_cache_get<'a>(m: &'a FileCacheMap, k: FileId) -> (r: Option<&'a ModuleVec>)
    ensures
        match r {
            Some(v) => m@.contains_key(k) && *v == m@[k],
            None => !m@.contains_key(k),
        },
{
    m.get(&k)
}

/// Relies on `HashMap::insert` with the Fx hasher.
#[verifier::external_body]
pub(crate) fn file_cache_insert(m: &mut FileCacheMap, k: FileId, v: ModuleVec)
    ensures
        final(m)@ == old(m)@.insert(k, v),
{
    m.insert(k, v);
}

} // verus!
