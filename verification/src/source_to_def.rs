//! The Container Classifier and the syntax-to-definition direction.
//!
//! Resolving a syntax node to its semantic definition walks the node's
//! ancestor chain, crossing macro-expansion boundaries by continuing from
//! the expansion's argument site, until an ancestor resolves to a semantic
//! container; the node is then looked up in that container's Identity Map
//! fragment, computed on demand by the Child Enumerator and memoized in the
//! per-session Resolution Cache.  If no ancestor resolves, the walk falls
//! back to the first module owning the node's original file.
//!
//! The `s_` spec functions below define resolution as pure mathematics over
//! the database; the executable methods carry the caches and are proved to
//! return exactly the spec values.  The recursion is bounded
//! lexicographically: every step either leaves the current file for one of
//! strictly smaller rank or moves to an earlier node of the same tree.

use vstd::prelude::*;
use crate::FileId;
use crate::ids::{
    AdtId, BindingId, BlockId, ChildContainer, ConstId, ConstParamId, CrateId, DefWithBodyId,
    EnumId, EnumVariantId, ExternCrateId, FunctionId, GenericDefId,
    GenericParamId, HirFileId, ImplId, LabelId, LifetimeParamId, Macro2Id, MacroCallId,
    MacroFileId, MacroId, MacroRulesId, ModuleId, ProcMacroId, StaticId, StructId, TraitAliasId,
    TraitId, TypeAliasId, TypeParamId, UnionId, UseId,
};
use crate::caches::{
    dynmap_cache_get, dynmap_cache_insert, dynmap_cache_new, dynmap_cache_view,
    expansion_cache_get, expansion_cache_insert, expansion_cache_new, expansion_cache_view,
    file_cache_get, file_cache_insert, file_cache_new, file_cache_view, module_vec_clone,
    module_vec_get, module_vec_len, module_vec_new, module_vec_push, module_vec_view,
    DynMapCacheMap, ExpansionCacheMap, FileCacheMap, ModuleVec,
};
use crate::child_by_source::{child_by_source, db_tree, hir_file_eq, s_children_get};
use crate::db::{Database, ExpansionInfo, MacroDefAst, ModuleOrigin};
use crate::dyn_map::{DefValue, DynMap, KeyKind};
use crate::syntax::{AstPtr, InFile, SyntaxKind};

verus! {

/// The kind of a node, given its file-scoped position.
pub open spec fn s_kind(db: Database, n: InFile<u32>) -> SyntaxKind {
    db.tree(n.file_id).nodes[n.value as int].kind
}

/// A file-scoped node position that actually denotes a node.
pub open spec fn s_valid_node(db: Database, n: InFile<u32>) -> bool {
    db.valid_hir_file(n.file_id) && n.value < db.tree(n.file_id).nodes.len()
}

/// The expansion metadata of a macro file, as the macro expander supplies
/// it.
pub open spec fn s_expansion_info(db: Database, m: MacroFileId) -> ExpansionInfo {
    ExpansionInfo {
        call_file: db.macro_files[m.0 as int].call_file,
        arg_node: db.macro_files[m.0 as int].arg_node,
    }
}

/// The next ancestor of a node: its syntactic parent or, at the root of a
/// macro-expanded tree, the parent of the expansion's argument-site node.
pub open spec fn s_parent_ancestor(db: Database, n: InFile<u32>) -> Option<InFile<u32>> {
    match db.tree(n.file_id).nodes[n.value as int].parent {
        Some(p) => Some(InFile { file_id: n.file_id, value: p }),
        None => match n.file_id {
            HirFileId::File(_) => None,
            HirFileId::Macro(m) => {
                let info = s_expansion_info(db, m);
                match info.arg_node {
                    None => None,
                    Some(a) => match db.tree(info.call_file).nodes[a as int].parent {
                        Some(p) => Some(InFile { file_id: info.call_file, value: p }),
                        None => None,
                    },
                }
            },
        },
    }
}

/// Stepping to an ancestor strictly decreases the (file rank, node) measure.
pub proof fn lemma_parent_ancestor_smaller(db: Database, n: InFile<u32>)
    requires
        db.wf(),
        s_valid_node(db, n),
    ensures
        match s_parent_ancestor(db, n) {
            Some(a) => s_valid_node(db, a) && (db.file_rank(a.file_id) < db.file_rank(n.file_id)
                || (a.file_id == n.file_id && a.value < n.value)),
            None => true,
        },
{
    let tree = db.tree(n.file_id);
    assert(tree.wf()) by {
        match n.file_id {
            HirFileId::File(f) => {
                assert(db.files[f.0 as int].wf());
            },
            HirFileId::Macro(m) => {
                assert(db.macro_files[m.0 as int].tree.wf());
            },
        }
    }
    assert(tree.nodes[n.value as int] == tree.nodes[n.value as int]);
    match n.file_id {
        HirFileId::File(_) => {},
        HirFileId::Macro(m) => {
            assert(db.macro_files[m.0 as int] == db.macro_files[m.0 as int]);
            let info = s_expansion_info(db, m);
            assert(db.valid_hir_file(info.call_file) && db.file_rank(info.call_file) < m.0 + 1);
            match info.arg_node {
                Some(a) => {
                    let ct = db.tree(info.call_file);
                    assert(ct.wf()) by {
                        match info.call_file {
                            HirFileId::File(f) => {
                                assert(db.files[f.0 as int].wf());
                            },
                            HirFileId::Macro(m2) => {
                                assert(db.macro_files[m2.0 as int].tree.wf());
                            },
                        }
                    }
                    assert(ct.nodes[a as int] == ct.nodes[a as int]);
                },
                None => {},
            }
        },
    }
}

/// The real file a file identity originates from, through any number of
/// macro expansions.
pub open spec fn s_original_file(db: Database, f: HirFileId) -> FileId
    decreases db.file_rank(f),
        when db.wf() && db.valid_hir_file(f)
    via s_original_file_decreases
{
    match f {
        HirFileId::File(fid) => fid,
        HirFileId::Macro(m) => s_original_file(db, db.macro_files[m.0 as int].call_file),
    }
}

#[via_fn]
proof fn s_original_file_decreases(db: Database, f: HirFileId) {
    match f {
        HirFileId::File(_) => {},
        HirFileId::Macro(m) => {
            assert(db.macro_files[m.0 as int] == db.macro_files[m.0 as int]);
        },
    }
}

/// Whether a module's defining source file is the given one.
pub open spec fn s_module_declares_file(db: Database, c: CrateId, local: u32, f: FileId) -> bool {
    match db.crates[c.0 as int].modules[local as int].origin {
        ModuleOrigin::CrateRoot { definition } => definition == f,
        ModuleOrigin::File { definition, .. } => definition == f,
        _ => false,
    }
}

/// The modules of one crate whose defining file is `f`, among the first `n`
/// modules, in tree order.
pub open spec fn s_crate_modules_upto(db: Database, c: CrateId, f: FileId, n: int) -> Seq<ModuleId>
    decreases n,
{
    if n <= 0 {
        Seq::empty()
    } else {
        let s = s_crate_modules_upto(db, c, f, n - 1);
        if s_module_declares_file(db, c, (n - 1) as u32, f) {
            s.push(ModuleId { krate: c, local_id: (n - 1) as u32 })
        } else {
            s
        }
    }
}

/// The modules of one crate whose defining file is `f`.
pub open spec fn s_crate_modules_for_file(db: Database, c: CrateId, f: FileId) -> Seq<ModuleId> {
    s_crate_modules_upto(db, c, f, db.crates[c.0 as int].modules.len() as int)
}

/// Modules found through `include!`-style invocations of a crate that
/// expand into the file: the modules of each such call's original file.
pub open spec fn s_include_fallback_upto(db: Database, c: CrateId, f: FileId, n: int) -> Seq<
    ModuleId,
>
    decreases n,
{
    if n <= 0 {
        Seq::empty()
    } else {
        let s = s_include_fallback_upto(db, c, f, n - 1);
        let e = db.crates[c.0 as int].include_invocations[n - 1];
        if e.1 == f {
            s + s_crate_modules_for_file(
                db,
                c,
                s_original_file(db, db.macro_calls[e.0.0 as int].call_file),
            )
        } else {
            s
        }
    }
}

pub open spec fn s_include_fallback(db: Database, c: CrateId, f: FileId) -> Seq<ModuleId> {
    s_include_fallback_upto(db, c, f, db.crates[c.0 as int].include_invocations.len() as int)
}

/// What one crate contributes to the file-to-modules index: the modules
/// declaring the file directly or, if none do, those found through
/// `include!` invocations.
pub open spec fn s_crate_contribution(db: Database, c: CrateId, f: FileId) -> Seq<ModuleId> {
    let direct = s_crate_modules_for_file(db, c, f);
    if direct.len() > 0 {
        direct
    } else {
        s_include_fallback(db, c, f)
    }
}

pub open spec fn s_file_to_modules_upto(db: Database, f: FileId, n: int) -> Seq<ModuleId>
    decreases n,
{
    if n <= 0 {
        Seq::empty()
    } else {
        s_file_to_modules_upto(db, f, n - 1) + s_crate_contribution(
            db,
            db.relevant_crates[f.0 as int][n - 1],
            f,
        )
    }
}

/// The modules owning a file, across every crate that may contain it, in
/// discovery order.  A detached file yields the empty sequence.
pub open spec fn s_file_to_modules(db: Database, f: FileId) -> Seq<ModuleId> {
    s_file_to_modules_upto(db, f, db.relevant_crates[f.0 as int].len() as int)
}

/// The first owning module of a file identity, used as the classification
/// fallback at a file root.  When several modules own the file, the first
/// found is taken; with differing configurations this is a documented
/// imprecision, not an error.
pub open spec fn s_first_module_of_file(db: Database, f: HirFileId) -> Option<ModuleId> {
    let mods = s_file_to_modules(db, s_original_file(db, f));
    if mods.len() > 0 {
        Some(mods[0])
    } else {
        None
    }
}

/// First child module with a given name.
pub open spec fn s_child_module_by_name_from(children: Seq<(u32, u32)>, name: u32, i: int) -> Option<
    u32,
>
    decreases children.len() - i,
{
    if i < 0 || i >= children.len() {
        None
    } else if children[i].0 == name {
        Some(children[i].1)
    } else {
        s_child_module_by_name_from(children, name, i + 1)
    }
}

pub open spec fn s_child_module_by_name(children: Seq<(u32, u32)>, name: u32) -> Option<u32> {
    s_child_module_by_name_from(children, name, 0)
}

/// The ancestor walk of the Container Classifier: the first ancestor that
/// itself resolves to a semantic container.
pub open spec fn s_container_walk(db: Database, n: InFile<u32>) -> Option<ChildContainer>
    decreases db.file_rank(n.file_id), n.value, 0int,
        when db.wf() && s_valid_node(db, n)
    via s_container_walk_decreases
{
    match s_parent_ancestor(db, n) {
        None => None,
        Some(a) => match s_container_to_def(db, a) {
            Some(c) => Some(c),
            None => s_container_walk(db, a),
        },
    }
}

#[via_fn]
proof fn s_container_walk_decreases(db: Database, n: InFile<u32>) {
    lemma_parent_ancestor_smaller(db, n);
}

/// Classification of one node: the container it is, if its ancestor walk
/// can resolve it; otherwise the first module owning its original file.
pub open spec fn s_find_container(db: Database, n: InFile<u32>) -> Option<ChildContainer>
    decreases db.file_rank(n.file_id), n.value, 1int,
        when db.wf() && s_valid_node(db, n)
{
    match s_container_walk(db, n) {
        Some(c) => Some(c),
        None => match s_first_module_of_file(db, n.file_id) {
            Some(m) => Some(ChildContainer::ModuleId(m)),
            None => None,
        },
    }
}

/// Resolution of one pointer under one key: classify the node, then look it
/// up in the container's child map for the pointer's file.
pub open spec fn s_resolve(db: Database, file: HirFileId, ptr: AstPtr, key: KeyKind) -> Option<
    DefValue,
>
    decreases db.file_rank(file), ptr.raw, 2int,
        when db.wf() && db.valid_hir_file(file) && ptr.raw < db.tree(file).nodes.len()
{
    match s_find_container(db, InFile { file_id: file, value: ptr.raw }) {
        None => None,
        Some(c) => s_children_get(db, c, file, key, ptr),
    }
}

/// The first ancestor that is a module declaration or an item-declaring
/// block.
pub open spec fn s_module_walk(db: Database, n: InFile<u32>) -> Option<InFile<u32>>
    decreases db.file_rank(n.file_id), n.value, 0int,
        when db.wf() && s_valid_node(db, n)
    via s_module_walk_decreases
{
    match s_parent_ancestor(db, n) {
        None => None,
        Some(a) => {
            if s_kind(db, a) == SyntaxKind::Module || s_kind(db, a) == SyntaxKind::BlockExpr {
                Some(a)
            } else {
                s_module_walk(db, a)
            }
        },
    }
}

#[via_fn]
proof fn s_module_walk_decreases(db: Database, n: InFile<u32>) {
    lemma_parent_ancestor_smaller(db, n);
}

/// Resolution of a `mod` declaration node: resolve the enclosing module
/// declaration, block or file, then look the declared name up among that
/// module's children.
pub open spec fn s_module_to_def(db: Database, n: InFile<u32>) -> Option<ModuleId>
    decreases db.file_rank(n.file_id), n.value, 3int,
        when db.wf() && s_valid_node(db, n)
    via s_module_to_def_decreases
{
    let parent_module: Option<ModuleId> = match s_module_walk(db, n) {
        Some(a) => {
            if s_kind(db, a) == SyntaxKind::Module {
                s_module_to_def(db, a)
            } else {
                match s_resolve(
                    db,
                    a.file_id,
                    AstPtr { kind: SyntaxKind::BlockExpr, raw: a.value },
                    KeyKind::Block,
                ) {
                    Some(DefValue::Block(b)) => Some(db.blocks[b.0 as int].root_module),
                    _ => None,
                }
            }
        },
        None => s_first_module_of_file(db, n.file_id),
    };
    match parent_module {
        None => None,
        Some(pm) => match db.tree(n.file_id).nodes[n.value as int].name {
            None => None,
            Some(nm) => match s_child_module_by_name(db.module_data(pm).children@, nm) {
                None => None,
                Some(local) => Some(ModuleId { krate: pm.krate, local_id: local }),
            },
        },
    }
}

#[via_fn]
proof fn s_module_to_def_decreases(db: Database, n: InFile<u32>) {
    lemma_module_walk_smaller(db, n);
}

/// The module walk only ever returns strict ancestors.
pub proof fn lemma_module_walk_smaller(db: Database, n: InFile<u32>)
    requires
        db.wf(),
        s_valid_node(db, n),
    ensures
        match s_module_walk(db, n) {
            Some(a) => s_valid_node(db, a) && (db.file_rank(a.file_id) < db.file_rank(n.file_id)
                || (a.file_id == n.file_id && a.value < n.value)),
            None => true,
        },
    decreases db.file_rank(n.file_id), n.value,
{
    lemma_parent_ancestor_smaller(db, n);
    match s_parent_ancestor(db, n) {
        None => {},
        Some(a) => {
            if s_kind(db, a) == SyntaxKind::Module || s_kind(db, a) == SyntaxKind::BlockExpr {
            } else {
                lemma_module_walk_smaller(db, a);
            }
        },
    }
}

/// Resolution of an ancestor node as a semantic container.  Fields belong
/// to the variant-level container, so a struct or union resolves to its
/// single implicit variant; functions, statics, constants and enum variants
/// resolve to their body container.
pub open spec fn s_container_to_def(db: Database, n: InFile<u32>) -> Option<ChildContainer>
    decreases db.file_rank(n.file_id), n.value, 4int,
        when db.wf() && s_valid_node(db, n)
{
    let k = s_kind(db, n);
    let file = n.file_id;
    let ptr = AstPtr { kind: k, raw: n.value };
    if k == SyntaxKind::Module {
        match s_module_to_def(db, n) {
            Some(m) => Some(ChildContainer::ModuleId(m)),
            None => None,
        }
    } else if k == SyntaxKind::Trait {
        match s_resolve(db, file, ptr, KeyKind::Trait) {
            Some(DefValue::Trait(id)) => Some(ChildContainer::TraitId(id)),
            _ => None,
        }
    } else if k == SyntaxKind::TraitAlias {
        match s_resolve(db, file, ptr, KeyKind::TraitAlias) {
            Some(DefValue::TraitAlias(id)) => Some(ChildContainer::TraitAliasId(id)),
            _ => None,
        }
    } else if k == SyntaxKind::Impl {
        match s_resolve(db, file, ptr, KeyKind::Impl) {
            Some(DefValue::Impl(id)) => Some(ChildContainer::ImplId(id)),
            _ => None,
        }
    } else if k == SyntaxKind::Enum {
        match s_resolve(db, file, ptr, KeyKind::Enum) {
            Some(DefValue::Enum(id)) => Some(ChildContainer::EnumId(id)),
            _ => None,
        }
    } else if k == SyntaxKind::TypeAlias {
        match s_resolve(db, file, ptr, KeyKind::TypeAlias) {
            Some(DefValue::TypeAlias(id)) => Some(ChildContainer::TypeAliasId(id)),
            _ => None,
        }
    } else if k == SyntaxKind::Struct {
        match s_resolve(db, file, ptr, KeyKind::Struct) {
            Some(DefValue::Struct(id)) => Some(
                ChildContainer::VariantId(crate::ids::VariantId::StructId(id)),
            ),
            _ => None,
        }
    } else if k == SyntaxKind::Union {
        match s_resolve(db, file, ptr, KeyKind::Union) {
            Some(DefValue::Union(id)) => Some(
                ChildContainer::VariantId(crate::ids::VariantId::UnionId(id)),
            ),
            _ => None,
        }
    } else if k == SyntaxKind::Fn {
        match s_resolve(db, file, ptr, KeyKind::Function) {
            Some(DefValue::Function(id)) => Some(
                ChildContainer::DefWithBodyId(DefWithBodyId::FunctionId(id)),
            ),
            _ => None,
        }
    } else if k == SyntaxKind::Static {
        match s_resolve(db, file, ptr, KeyKind::Static) {
            Some(DefValue::Static(id)) => Some(
                ChildContainer::DefWithBodyId(DefWithBodyId::StaticId(id)),
            ),
            _ => None,
        }
    } else if k == SyntaxKind::Const {
        match s_resolve(db, file, ptr, KeyKind::Const) {
            Some(DefValue::Const(id)) => Some(
                ChildContainer::DefWithBodyId(DefWithBodyId::ConstId(id)),
            ),
            _ => None,
        }
    } else if k == SyntaxKind::Variant {
        match s_resolve(db, file, ptr, KeyKind::EnumVariant) {
            Some(DefValue::EnumVariant(id)) => Some(
                ChildContainer::DefWithBodyId(DefWithBodyId::VariantId(id)),
            ),
            _ => None,
        }
    } else {
        None
    }
}

/// Every module in a crate's per-file module list is a module of that
/// crate.
proof fn lemma_crate_modules_valid(db: Database, c: CrateId, f: FileId, n: int)
    requires
        db.wf(),
        db.valid_crate(c),
        n <= db.crates[c.0 as int].modules.len(),
    ensures
        forall|k: int|
            0 <= k < s_crate_modules_upto(db, c, f, n).len() ==> db.valid_module(
                #[trigger] s_crate_modules_upto(db, c, f, n)[k],
            ),
    decreases n,
{
    if n > 0 {
        lemma_crate_modules_valid(db, c, f, n - 1);
        let prev = s_crate_modules_upto(db, c, f, n - 1);
        let cur = s_crate_modules_upto(db, c, f, n);
        assert(db.crates[c.0 as int] == db.crates[c.0 as int]);
        assert(db.crates[c.0 as int].modules.len() <= u32::MAX);
        assert forall|k: int| 0 <= k < cur.len() implies db.valid_module(#[trigger] cur[k]) by {
            if k < prev.len() {
                assert(cur[k] == prev[k]);
            } else {
                assert(cur[k] == ModuleId { krate: c, local_id: (n - 1) as u32 });
            }
        }
    }
}

proof fn lemma_include_fallback_valid(db: Database, c: CrateId, f: FileId, n: int)
    requires
        db.wf(),
        db.valid_crate(c),
        n <= db.crates[c.0 as int].include_invocations.len(),
    ensures
        forall|k: int|
            0 <= k < s_include_fallback_upto(db, c, f, n).len() ==> db.valid_module(
                #[trigger] s_include_fallback_upto(db, c, f, n)[k],
            ),
    decreases n,
{
    if n > 0 {
        lemma_include_fallback_valid(db, c, f, n - 1);
        let prev = s_include_fallback_upto(db, c, f, n - 1);
        let cur = s_include_fallback_upto(db, c, f, n);
        let e = db.crates[c.0 as int].include_invocations[n - 1];
        if e.1 == f {
            let sub = s_crate_modules_for_file(
                db,
                c,
                s_original_file(db, db.macro_calls[e.0.0 as int].call_file),
            );
            lemma_crate_modules_valid(
                db,
                c,
                s_original_file(db, db.macro_calls[e.0.0 as int].call_file),
                db.crates[c.0 as int].modules.len() as int,
            );
            assert forall|k: int| 0 <= k < cur.len() implies db.valid_module(
                #[trigger] cur[k],
            ) by {
                if k < prev.len() {
                    assert(cur[k] == prev[k]);
                } else {
                    assert(cur[k] == sub[k - prev.len()]);
                }
            }
        }
    }
}

/// Every module the file-to-modules index yields is a module the database
/// holds.
pub proof fn lemma_file_modules_valid(db: Database, f: FileId, n: int)
    requires
        db.wf(),
        db.valid_file(f),
        n <= db.relevant_crates[f.0 as int].len(),
    ensures
        forall|k: int|
            0 <= k < s_file_to_modules_upto(db, f, n).len() ==> db.valid_module(
                #[trigger] s_file_to_modules_upto(db, f, n)[k],
            ),
    decreases n,
{
    if n > 0 {
        lemma_file_modules_valid(db, f, n - 1);
        let prev = s_file_to_modules_upto(db, f, n - 1);
        let cur = s_file_to_modules_upto(db, f, n);
        let c = db.relevant_crates[f.0 as int][n - 1];
        assert(db.valid_crate(c));
        lemma_crate_modules_valid(db, c, f, db.crates[c.0 as int].modules.len() as int);
        lemma_include_fallback_valid(
            db,
            c,
            f,
            db.crates[c.0 as int].include_invocations.len() as int,
        );
        let sub = s_crate_contribution(db, c, f);
        assert forall|k: int| 0 <= k < cur.len() implies db.valid_module(#[trigger] cur[k]) by {
            if k < prev.len() {
                assert(cur[k] == prev[k]);
            } else {
                assert(cur[k] == sub[k - prev.len()]);
            }
        }
    }
}

/// The Resolution Cache of one query session: memoized child maps keyed by
/// (container, file), memoized expansion metadata, and the memoized
/// file-to-modules index.  All three are read-through and live exactly as
/// long as the session.
pub struct SourceToDefCache {
    pub dynmap_cache: DynMapCacheMap,
    pub expansion_info_cache: ExpansionCacheMap,
    pub file_to_def_cache: FileCacheMap,
}

impl SourceToDefCache {
    /// Everything cached equals what the pure resolution functions give for
    /// this database.
    pub open spec fn inv(self, db: Database) -> bool {
        &&& forall|k: (ChildContainer, HirFileId)| #[trigger]
            dynmap_cache_view(self.dynmap_cache).contains_key(k) ==> dynmap_cache_view(
                self.dynmap_cache,
            )[k].wf() && forall|key: KeyKind, ptr: AstPtr| #[trigger]
                dynmap_cache_view(self.dynmap_cache)[k].spec_fwd(key, ptr) == s_children_get(
                    db,
                    k.0,
                    k.1,
                    key,
                    ptr,
                )
        &&& forall|m: MacroFileId| #[trigger]
            expansion_cache_view(self.expansion_info_cache).contains_key(m)
                ==> expansion_cache_view(self.expansion_info_cache)[m] == s_expansion_info(db, m)
        &&& forall|f: FileId| #[trigger] file_cache_view(self.file_to_def_cache).contains_key(f)
            ==> module_vec_view(file_cache_view(self.file_to_def_cache)[f]) == s_file_to_modules(
                db,
                f,
            )
    }

    /// A fresh, empty session cache.
    pub fn new() -> (r: SourceToDefCache)
        ensures
            forall|db: Database| #[trigger] r.inv(db),
    {
        let r = SourceToDefCache {
            dynmap_cache: dynmap_cache_new(),
            expansion_info_cache: expansion_cache_new(),
            file_to_def_cache: file_cache_new(),
        };
        r
    }

    /// Expansion metadata of a macro file, cached after the first request.
    pub fn expansion_info(&mut self, db: &Database, m: MacroFileId) -> (r: ExpansionInfo)
        requires
            db.wf(),
            old(self).inv(*db),
            db.valid_macro_file(m),
        ensures
            final(self).inv(*db),
            r == s_expansion_info(*db, m),
            final(self).dynmap_cache == old(self).dynmap_cache,
            final(self).file_to_def_cache == old(self).file_to_def_cache,
    {
        match expansion_cache_get(&self.expansion_info_cache, m) {
            Some(info) => info,
            None => {
                let info = ExpansionInfo {
                    call_file: db.macro_files[m.0 as usize].call_file,
                    arg_node: db.macro_files[m.0 as usize].arg_node,
                };
                expansion_cache_insert(&mut self.expansion_info_cache, m, info);
                info
            },
        }
    }

    /// One upward step of the ancestor walk, crossing a macro-expansion
    /// boundary at the root of a synthetic tree.
    pub fn parent_ancestor(&mut self, db: &Database, n: InFile<u32>) -> (r: Option<InFile<u32>>)
        requires
            db.wf(),
            old(self).inv(*db),
            s_valid_node(*db, n),
        ensures
            final(self).inv(*db),
            r == s_parent_ancestor(*db, n),
            match r {
                Some(a) => s_valid_node(*db, a) && (db.file_rank(a.file_id) < db.file_rank(
                    n.file_id,
                ) || (a.file_id == n.file_id && a.value < n.value)),
                None => true,
            },
            final(self).dynmap_cache == old(self).dynmap_cache,
            final(self).file_to_def_cache == old(self).file_to_def_cache,
    {
        proof {
            lemma_parent_ancestor_smaller(*db, n);
        }
        let tree = db_tree(db, n.file_id);
        match tree.nodes[n.value as usize].parent {
            Some(p) => Some(InFile { file_id: n.file_id, value: p }),
            None => match n.file_id {
                HirFileId::File(_) => None,
                HirFileId::Macro(m) => {
                    let info = self.expansion_info(db, m);
                    match info.arg_node {
                        None => None,
                        Some(a) => {
                            proof {
                                assert(db.macro_files[m.0 as int] == db.macro_files[m.0 as int]);
                            }
                            let ct = db_tree(db, info.call_file);
                            match ct.nodes[a as usize].parent {
                                Some(p) => Some(InFile { file_id: info.call_file, value: p }),
                                None => None,
                            }
                        },
                    }
                },
            },
        }
    }

    /// The modules owning a real file, in discovery order, cached after the
    /// first request.  A detached file yields an empty index entry, not a
    /// failure.
    pub fn file_to_def(&mut self, db: &Database, file: FileId) -> (r: ModuleVec)
        requires
            db.wf(),
            old(self).inv(*db),
            db.valid_file(file),
        ensures
            final(self).inv(*db),
            module_vec_view(r) == s_file_to_modules(*db, file),
            final(self).dynmap_cache == old(self).dynmap_cache,
            final(self).expansion_info_cache == old(self).expansion_info_cache,
    {
        let hit: Option<ModuleVec> = match file_cache_get(&self.file_to_def_cache, file) {
            Some(v) => {
                proof {
                    assert(file_cache_view(self.file_to_def_cache).contains_key(file));
                    assert(module_vec_view(*v) == s_file_to_modules(*db, file));
                }
                Some(module_vec_clone(v))
            },
            None => None,
        };
        match hit {
            Some(r) => {
                proof {
                    assert(*self == *old(self));
                    assert(self.inv(*db));
                }
                r
            },
            None => {
                let mut mods = module_vec_new();
                let n_crates = db.relevant_crates[file.0 as usize].len();
                let mut ci: usize = 0;
                proof {
                    assert(module_vec_view(mods) =~= s_file_to_modules_upto(*db, file, 0));
                }
                while ci < n_crates
                    invariant
                        db.wf(),
                        db.valid_file(file),
                        0 <= ci <= n_crates,
                        n_crates == db.relevant_crates[file.0 as int].len(),
                        module_vec_view(mods) == s_file_to_modules_upto(*db, file, ci as int),
                    decreases n_crates - ci,
                {
                    let c = db.relevant_crates[file.0 as usize][ci];
                    let ghost before_view = module_vec_view(mods);
                    let before = module_vec_len(&mods);
                    push_crate_modules(&mut mods, db, c, file);
                    if module_vec_len(&mods) == before {
                        proof {
                            assert(s_crate_modules_for_file(*db, c, file).len() == 0);
                            assert(module_vec_view(mods) =~= before_view);
                        }
                        push_include_fallback(&mut mods, db, c, file);
                        proof {
                            assert(module_vec_view(mods) =~= before_view + s_crate_contribution(
                                *db,
                                c,
                                file,
                            ));
                        }
                    } else {
                        proof {
                            assert(module_vec_view(mods) =~= before_view + s_crate_contribution(
                                *db,
                                c,
                                file,
                            ));
                        }
                    }
                    ci += 1;
                }
                let r = module_vec_clone(&mods);
                file_cache_insert(&mut self.file_to_def_cache, file, mods);
                proof {
                    assert forall|f2: FileId| #[trigger] file_cache_view(
                        self.file_to_def_cache,
                    ).contains_key(f2) implies module_vec_view(
                        file_cache_view(self.file_to_def_cache)[f2],
                    ) == s_file_to_modules(*db, f2) by {
                        if f2 != file {
                            assert(file_cache_view(old(self).file_to_def_cache).contains_key(f2));
                        }
                    }
                }
                r
            },
        }
    }

    /// The child map of one container for one file: computed by the Child
    /// Enumerator at most once per session, then served from the cache.  A
    /// second request for the same pair returns the cached map and leaves
    /// the cache untouched.
    pub fn cache_for(&mut self, db: &Database, container: ChildContainer, file_id: HirFileId) -> (r:
        DynMap)
        requires
            db.wf(),
            old(self).inv(*db),
            db.valid_container(container),
            db.valid_hir_file(file_id),
        ensures
            final(self).inv(*db),
            r.wf(),
            forall|key: KeyKind, ptr: AstPtr| #[trigger] r.spec_fwd(key, ptr) == s_children_get(
                *db,
                container,
                file_id,
                key,
                ptr,
            ),
            final(self).expansion_info_cache == old(self).expansion_info_cache,
            final(self).file_to_def_cache == old(self).file_to_def_cache,
            dynmap_cache_view(old(self).dynmap_cache).contains_key((container, file_id))
                ==> final(self).dynmap_cache == old(self).dynmap_cache,
    {
        let k = (container, file_id);
        let hit = dynmap_cache_get(&self.dynmap_cache, &k);
        match hit {
            Some(mref) => mref.duplicate(),
            None => {
                let m = child_by_source(db, container, file_id);
                let r = m.duplicate();
                dynmap_cache_insert(&mut self.dynmap_cache, k, m);
                r
            },
        }
    }
}

/// Append the modules of one crate that declare a file.
#[verifier::loop_isolation(false)]
fn push_crate_modules(mods: &mut ModuleVec, db: &Database, c: CrateId, f: FileId)
    requires
        db.wf(),
        db.valid_crate(c),
    ensures
        module_vec_view(*final(mods)) == module_vec_view(*old(mods)) + s_crate_modules_for_file(
            *db,
            c,
            f,
        ),
{
    let n = db.crates[c.0 as usize].modules.len();
    let mut local: usize = 0;
    proof {
        assert(module_vec_view(*mods) =~= module_vec_view(*old(mods)) + s_crate_modules_upto(
            *db,
            c,
            f,
            0,
        ));
    }
    while local < n
        invariant
            0 <= local <= n,
            module_vec_view(*mods) == module_vec_view(*old(mods)) + s_crate_modules_upto(
                *db,
                c,
                f,
                local as int,
            ),
        decreases n - local,
    {
        let declares = match db.crates[c.0 as usize].modules[local].origin {
            ModuleOrigin::CrateRoot { definition } => definition == f,
            ModuleOrigin::File { definition, .. } => definition == f,
            _ => false,
        };
        if declares {
            module_vec_push(mods, ModuleId { krate: c, local_id: local as u32 });
            proof {
                assert(module_vec_view(*mods) =~= module_vec_view(*old(mods))
                    + s_crate_modules_upto(*db, c, f, local + 1));
            }
        }
        local += 1;
    }
}

/// Append the modules found through a crate's `include!`-style invocations
/// that expand into the file.
#[verifier::loop_isolation(false)]
fn push_include_fallback(mods: &mut ModuleVec, db: &Database, c: CrateId, f: FileId)
    requires
        db.wf(),
        db.valid_crate(c),
    ensures
        module_vec_view(*final(mods)) == module_vec_view(*old(mods)) + s_include_fallback(
            *db,
            c,
            f,
        ),
{
    let n = db.crates[c.0 as usize].include_invocations.len();
    let mut k: usize = 0;
    proof {
        assert(module_vec_view(*mods) =~= module_vec_view(*old(mods)) + s_include_fallback_upto(
            *db,
            c,
            f,
            0,
        ));
    }
    while k < n
        invariant
            0 <= k <= n,
            module_vec_view(*mods) == module_vec_view(*old(mods)) + s_include_fallback_upto(
                *db,
                c,
                f,
                k as int,
            ),
        decreases n - k,
    {
        let e = db.crates[c.0 as usize].include_invocations[k];
        if e.1 == f {
            let call_file = db.macro_calls[e.0.0 as usize].call_file;
            let orig = original_file_of(db, call_file);
            push_crate_modules(mods, db, c, orig);
            proof {
                assert(module_vec_view(*mods) =~= module_vec_view(*old(mods))
                    + s_include_fallback_upto(*db, c, f, k + 1));
            }
        }
        k += 1;
    }
}

/// The real file a file identity originates from.
pub fn original_file_of(db: &Database, f: HirFileId) -> (r: FileId)
    requires
        db.wf(),
        db.valid_hir_file(f),
    ensures
        r == s_original_file(*db, f),
        db.valid_file(r),
    decreases db.file_rank(f),
{
    match f {
        HirFileId::File(x) => x,
        HirFileId::Macro(m) => {
            proof {
                assert(db.macro_files[m.0 as int] == db.macro_files[m.0 as int]);
            }
            original_file_of(db, db.macro_files[m.0 as usize].call_file)
        },
    }
}

/// A pointer that denotes some position of its file's tree.
pub open spec fn s_valid_src(db: Database, src: InFile<AstPtr>) -> bool {
    db.valid_hir_file(src.file_id) && src.value.raw < db.tree(src.file_id).nodes.len()
}

/// First index of a pointer in a source-pointer list.
pub open spec fn s_ptr_index_from(s: Seq<AstPtr>, p: AstPtr, i: int) -> Option<int>
    decreases s.len() - i,
{
    if i < 0 || i >= s.len() {
        None
    } else if s[i] == p {
        Some(i)
    } else {
        s_ptr_index_from(s, p, i + 1)
    }
}

pub open spec fn s_ptr_index_of(s: Seq<AstPtr>, p: AstPtr) -> Option<int> {
    s_ptr_index_from(s, p, 0)
}

impl SourceToDefCache {
    /// One step of the classifier walk, executable: first ancestor that
    /// resolves to a container.
    fn container_walk(&mut self, db: &Database, n: InFile<u32>) -> (r: Option<ChildContainer>)
        requires
            db.wf(),
            old(self).inv(*db),
            s_valid_node(*db, n),
        ensures
            final(self).inv(*db),
            r == s_container_walk(*db, n),
            match r {
                Some(c) => db.valid_container(c),
                None => true,
            },
        decreases db.file_rank(n.file_id), n.value, 0int,
    {
        match self.parent_ancestor(db, n) {
            None => None,
            Some(a) => match self.container_to_def(db, a) {
                Some(c) => Some(c),
                None => self.container_walk(db, a),
            },
        }
    }

    /// The Container Classifier: which container syntactically owns a node.
    pub fn find_container(&mut self, db: &Database, n: InFile<u32>) -> (r: Option<ChildContainer>)
        requires
            db.wf(),
            old(self).inv(*db),
            s_valid_node(*db, n),
        ensures
            final(self).inv(*db),
            r == s_find_container(*db, n),
            match r {
                Some(c) => db.valid_container(c),
                None => true,
            },
        decreases db.file_rank(n.file_id), n.value, 1int,
    {
        let walked = self.container_walk(db, n);
        match walked {
            Some(c) => Some(c),
            None => {
                let orig = original_file_of(db, n.file_id);
                let mods = self.file_to_def(db, orig);
                proof {
                    lemma_file_modules_valid(
                        *db,
                        orig,
                        db.relevant_crates[orig.0 as int].len() as int,
                    );
                }
                match module_vec_get(&mods, 0) {
                    Some(m) => Some(ChildContainer::ModuleId(m)),
                    None => None,
                }
            },
        }
    }

    /// The memoized Identity Map fragment for the container owning a node.
    fn dyn_map(&mut self, db: &Database, src: InFile<AstPtr>) -> (r: Option<DynMap>)
        requires
            db.wf(),
            old(self).inv(*db),
            s_valid_src(*db, src),
        ensures
            final(self).inv(*db),
            r is Some <==> s_find_container(
                *db,
                InFile { file_id: src.file_id, value: src.value.raw },
            ) is Some,
            match s_find_container(*db, InFile { file_id: src.file_id, value: src.value.raw }) {
                Some(c) => db.valid_container(c),
                None => true,
            },
            match r {
                Some(m) => m.wf() && {
                    let c = s_find_container(
                        *db,
                        InFile { file_id: src.file_id, value: src.value.raw },
                    )->Some_0;
                    forall|key: KeyKind, ptr: AstPtr| #[trigger] m.spec_fwd(key, ptr)
                        == s_children_get(*db, c, src.file_id, key, ptr)
                },
                None => true,
            },
        decreases db.file_rank(src.file_id), src.value.raw, 2int,
    {
        let n = InFile { file_id: src.file_id, value: src.value.raw };
        match self.find_container(db, n) {
            None => None,
            Some(c) => Some(self.cache_for(db, c, src.file_id)),
        }
    }

    /// Resolve one pointer under one key descriptor.
    fn to_def(&mut self, db: &Database, file: HirFileId, ptr: AstPtr, key: KeyKind) -> (r: Option<
        DefValue,
    >)
        requires
            db.wf(),
            old(self).inv(*db),
            db.valid_hir_file(file),
            ptr.raw < db.tree(file).nodes.len(),
        ensures
            final(self).inv(*db),
            r == s_resolve(*db, file, ptr, key),
            match r {
                Some(v) => crate::child_by_source::s_def_value_valid(*db, v),
                None => true,
            },
        decreases db.file_rank(file), ptr.raw, 3int,
    {
        let src = InFile { file_id: file, value: ptr };
        match self.dyn_map(db, src) {
            None => None,
            Some(m) => {
                let r = m.get_fwd(key, ptr);
                proof {
                    let c = s_find_container(*db, InFile { file_id: file, value: ptr.raw });
                    crate::child_by_source::lemma_children_valid(*db, c->Some_0, file, key, ptr);
                }
                r
            },
        }
    }

    /// First enclosing module declaration or item-declaring block.
    fn module_walk(&mut self, db: &Database, n: InFile<u32>) -> (r: Option<InFile<u32>>)
        requires
            db.wf(),
            old(self).inv(*db),
            s_valid_node(*db, n),
        ensures
            final(self).inv(*db),
            r == s_module_walk(*db, n),
            match r {
                Some(a) => s_valid_node(*db, a) && (db.file_rank(a.file_id) < db.file_rank(
                    n.file_id,
                ) || (a.file_id == n.file_id && a.value < n.value)),
                None => true,
            },
        decreases db.file_rank(n.file_id), n.value,
    {
        match self.parent_ancestor(db, n) {
            None => None,
            Some(a) => {
                let tree = db_tree(db, a.file_id);
                let k = tree.kind_of(a.value);
                if k == SyntaxKind::Module || k == SyntaxKind::BlockExpr {
                    Some(a)
                } else {
                    self.module_walk(db, a)
                }
            },
        }
    }

    /// Resolve a `mod` declaration node to its module.
    pub fn module_to_def(&mut self, db: &Database, n: InFile<u32>) -> (r: Option<ModuleId>)
        requires
            db.wf(),
            old(self).inv(*db),
            s_valid_node(*db, n),
        ensures
            final(self).inv(*db),
            r == s_module_to_def(*db, n),
            match r {
                Some(m) => db.valid_module(m),
                None => true,
            },
        decreases db.file_rank(n.file_id), n.value, 4int,
    {
        let walked = self.module_walk(db, n);
        let parent_module: Option<ModuleId> = match walked {
            Some(a) => {
                let tree = db_tree(db, a.file_id);
                if tree.kind_of(a.value) == SyntaxKind::Module {
                    self.module_to_def(db, a)
                } else {
                    let bptr = AstPtr { kind: SyntaxKind::BlockExpr, raw: a.value };
                    match self.to_def(db, a.file_id, bptr, KeyKind::Block) {
                        Some(DefValue::Block(b)) => Some(db.blocks[b.0 as usize].root_module),
                        _ => None,
                    }
                }
            },
            None => {
                let orig = original_file_of(db, n.file_id);
                let mods = self.file_to_def(db, orig);
                proof {
                    lemma_file_modules_valid(
                        *db,
                        orig,
                        db.relevant_crates[orig.0 as int].len() as int,
                    );
                }
                module_vec_get(&mods, 0)
            },
        };
        match parent_module {
            None => None,
            Some(pm) => {
                let tree = db_tree(db, n.file_id);
                match tree.nodes[n.value as usize].name {
                    None => None,
                    Some(nm) => self.child_module_lookup(db, pm, nm),
                }
            },
        }
    }

    /// Look a name up among a module's children.
    #[verifier::loop_isolation(false)]
    fn child_module_lookup(&mut self, db: &Database, pm: ModuleId, nm: u32) -> (r: Option<ModuleId>)
        requires
            db.wf(),
            old(self).inv(*db),
            db.valid_module(pm),
        ensures
            final(self).inv(*db),
            *final(self) == *old(self),
            r == match s_child_module_by_name(db.module_data(pm).children@, nm) {
                Some(local) => Some(ModuleId { krate: pm.krate, local_id: local }),
                None => None::<ModuleId>,
            },
            match r {
                Some(m) => db.valid_module(m),
                None => true,
            },
    {
        let children = &db.crates[pm.krate.0 as usize].modules[pm.local_id as usize].children;
        proof {
            assert(db.wf_module(pm.krate, db.module_data(pm)));
        }
        let mut i: usize = 0;
        while i < children.len()
            invariant
                0 <= i <= children.len(),
                s_child_module_by_name(db.module_data(pm).children@, nm)
                    == s_child_module_by_name_from(db.module_data(pm).children@, nm, i as int),
            decreases children.len() - i,
        {
            if children[i].0 == nm {
                return Some(ModuleId { krate: pm.krate, local_id: children[i].1 });
            }
            i += 1;
        }
        None
    }

    /// Resolution of an ancestor node as a semantic container.
    pub fn container_to_def(&mut self, db: &Database, n: InFile<u32>) -> (r: Option<ChildContainer>)
        requires
            db.wf(),
            old(self).inv(*db),
            s_valid_node(*db, n),
        ensures
            final(self).inv(*db),
            r == s_container_to_def(*db, n),
            match r {
                Some(c) => db.valid_container(c),
                None => true,
            },
        decreases db.file_rank(n.file_id), n.value, 5int,
    {
        let tree = db_tree(db, n.file_id);
        let k = tree.kind_of(n.value);
        let file = n.file_id;
        let ptr = AstPtr { kind: k, raw: n.value };
        if k == SyntaxKind::Module {
            match self.module_to_def(db, n) {
                Some(m) => Some(ChildContainer::ModuleId(m)),
                None => None,
            }
        } else if k == SyntaxKind::Trait {
            match self.to_def(db, file, ptr, KeyKind::Trait) {
                Some(DefValue::Trait(id)) => Some(ChildContainer::TraitId(id)),
                _ => None,
            }
        } else if k == SyntaxKind::TraitAlias {
            match self.to_def(db, file, ptr, KeyKind::TraitAlias) {
                Some(DefValue::TraitAlias(id)) => Some(ChildContainer::TraitAliasId(id)),
                _ => None,
            }
        } else if k == SyntaxKind::Impl {
            match self.to_def(db, file, ptr, KeyKind::Impl) {
                Some(DefValue::Impl(id)) => Some(ChildContainer::ImplId(id)),
                _ => None,
            }
        } else if k == SyntaxKind::Enum {
            match self.to_def(db, file, ptr, KeyKind::Enum) {
                Some(DefValue::Enum(id)) => Some(ChildContainer::EnumId(id)),
                _ => None,
            }
        } else if k == SyntaxKind::TypeAlias {
            match self.to_def(db, file, ptr, KeyKind::TypeAlias) {
                Some(DefValue::TypeAlias(id)) => Some(ChildContainer::TypeAliasId(id)),
                _ => None,
            }
        } else if k == SyntaxKind::Struct {
            match self.to_def(db, file, ptr, KeyKind::Struct) {
                Some(DefValue::Struct(id)) => Some(
                    ChildContainer::VariantId(crate::ids::VariantId::StructId(id)),
                ),
                _ => None,
            }
        } else if k == SyntaxKind::Union {
            match self.to_def(db, file, ptr, KeyKind::Union) {
                Some(DefValue::Union(id)) => Some(
                    ChildContainer::VariantId(crate::ids::VariantId::UnionId(id)),
                ),
                _ => None,
            }
        } else if k == SyntaxKind::Fn {
            match self.to_def(db, file, ptr, KeyKind::Function) {
                Some(DefValue::Function(id)) => Some(
                    ChildContainer::DefWithBodyId(DefWithBodyId::FunctionId(id)),
                ),
                _ => None,
            }
        } else if k == SyntaxKind::Static {
            match self.to_def(db, file, ptr, KeyKind::Static) {
                Some(DefValue::Static(id)) => Some(
                    ChildContainer::DefWithBodyId(DefWithBodyId::StaticId(id)),
                ),
                _ => None,
            }
        } else if k == SyntaxKind::Const {
            match self.to_def(db, file, ptr, KeyKind::Const) {
                Some(DefValue::Const(id)) => Some(
                    ChildContainer::DefWithBodyId(DefWithBodyId::ConstId(id)),
                ),
                _ => None,
            }
        } else if k == SyntaxKind::Variant {
            match self.to_def(db, file, ptr, KeyKind::EnumVariant) {
                Some(DefValue::EnumVariant(id)) => Some(
                    ChildContainer::DefWithBodyId(DefWithBodyId::VariantId(id)),
                ),
                _ => None,
            }
        } else {
            None
        }
    }
}

/// Typed resolution: the stored value under a key, narrowed to its kind.
pub open spec fn s_trait_to_def(db: Database, src: InFile<AstPtr>) -> Option<TraitId> {
    match s_resolve(db, src.file_id, src.value, KeyKind::Trait) {
        Some(DefValue::Trait(id)) => Some(id),
        _ => None,
    }
}

pub open spec fn s_trait_alias_to_def(db: Database, src: InFile<AstPtr>) -> Option<TraitAliasId> {
    match s_resolve(db, src.file_id, src.value, KeyKind::TraitAlias) {
        Some(DefValue::TraitAlias(id)) => Some(id),
        _ => None,
    }
}

pub open spec fn s_impl_to_def(db: Database, src: InFile<AstPtr>) -> Option<ImplId> {
    match s_resolve(db, src.file_id, src.value, KeyKind::Impl) {
        Some(DefValue::Impl(id)) => Some(id),
        _ => None,
    }
}

pub open spec fn s_fn_to_def(db: Database, src: InFile<AstPtr>) -> Option<FunctionId> {
    match s_resolve(db, src.file_id, src.value, KeyKind::Function) {
        Some(DefValue::Function(id)) => Some(id),
        _ => None,
    }
}

pub open spec fn s_struct_to_def(db: Database, src: InFile<AstPtr>) -> Option<StructId> {
    match s_resolve(db, src.file_id, src.value, KeyKind::Struct) {
        Some(DefValue::Struct(id)) => Some(id),
        _ => None,
    }
}

pub open spec fn s_enum_to_def(db: Database, src: InFile<AstPtr>) -> Option<EnumId> {
    match s_resolve(db, src.file_id, src.value, KeyKind::Enum) {
        Some(DefValue::Enum(id)) => Some(id),
        _ => None,
    }
}

pub open spec fn s_union_to_def(db: Database, src: InFile<AstPtr>) -> Option<UnionId> {
    match s_resolve(db, src.file_id, src.value, KeyKind::Union) {
        Some(DefValue::Union(id)) => Some(id),
        _ => None,
    }
}

pub open spec fn s_static_to_def(db: Database, src: InFile<AstPtr>) -> Option<StaticId> {
    match s_resolve(db, src.file_id, src.value, KeyKind::Static) {
        Some(DefValue::Static(id)) => Some(id),
        _ => None,
    }
}

pub open spec fn s_const_to_def(db: Database, src: InFile<AstPtr>) -> Option<ConstId> {
    match s_resolve(db, src.file_id, src.value, KeyKind::Const) {
        Some(DefValue::Const(id)) => Some(id),
        _ => None,
    }
}

pub open spec fn s_type_alias_to_def(db: Database, src: InFile<AstPtr>) -> Option<TypeAliasId> {
    match s_resolve(db, src.file_id, src.value, KeyKind::TypeAlias) {
        Some(DefValue::TypeAlias(id)) => Some(id),
        _ => None,
    }
}

pub open spec fn s_record_field_to_def(db: Database, src: InFile<AstPtr>) -> Option<
    crate::ids::FieldId,
> {
    match s_resolve(db, src.file_id, src.value, KeyKind::RecordField) {
        Some(DefValue::Field(id)) => Some(id),
        _ => None,
    }
}

pub open spec fn s_tuple_field_to_def(db: Database, src: InFile<AstPtr>) -> Option<
    crate::ids::FieldId,
> {
    match s_resolve(db, src.file_id, src.value, KeyKind::TupleField) {
        Some(DefValue::Field(id)) => Some(id),
        _ => None,
    }
}

pub open spec fn s_block_to_def(db: Database, src: InFile<AstPtr>) -> Option<BlockId> {
    match s_resolve(db, src.file_id, src.value, KeyKind::Block) {
        Some(DefValue::Block(id)) => Some(id),
        _ => None,
    }
}

pub open spec fn s_enum_variant_to_def(db: Database, src: InFile<AstPtr>) -> Option<EnumVariantId> {
    match s_resolve(db, src.file_id, src.value, KeyKind::EnumVariant) {
        Some(DefValue::EnumVariant(id)) => Some(id),
        _ => None,
    }
}

pub open spec fn s_extern_crate_to_def(db: Database, src: InFile<AstPtr>) -> Option<ExternCrateId> {
    match s_resolve(db, src.file_id, src.value, KeyKind::ExternCrate) {
        Some(DefValue::ExternCrate(id)) => Some(id),
        _ => None,
    }
}

pub open spec fn s_use_to_def(db: Database, src: InFile<AstPtr>) -> Option<UseId> {
    match s_resolve(db, src.file_id, src.value, KeyKind::Use) {
        Some(DefValue::Use(id)) => Some(id),
        _ => None,
    }
}

pub open spec fn s_adt_to_def(db: Database, src: InFile<AstPtr>) -> Option<AdtId> {
    if src.value.kind == SyntaxKind::Enum {
        match s_enum_to_def(db, src) {
            Some(id) => Some(AdtId::EnumId(id)),
            None => None,
        }
    } else if src.value.kind == SyntaxKind::Struct {
        match s_struct_to_def(db, src) {
            Some(id) => Some(AdtId::StructId(id)),
            None => None,
        }
    } else if src.value.kind == SyntaxKind::Union {
        match s_union_to_def(db, src) {
            Some(id) => Some(AdtId::UnionId(id)),
            None => None,
        }
    } else {
        None
    }
}

pub open spec fn s_macro_to_def(db: Database, src: InFile<AstPtr>) -> Option<MacroId> {
    if src.value.kind == SyntaxKind::MacroRules {
        match s_resolve(db, src.file_id, src.value, KeyKind::MacroRules) {
            Some(DefValue::MacroRules(id)) => Some(MacroId::MacroRulesId(id)),
            _ => None,
        }
    } else {
        match s_resolve(db, src.file_id, src.value, KeyKind::Macro2) {
            Some(DefValue::Macro2(id)) => Some(MacroId::Macro2Id(id)),
            _ => None,
        }
    }
}

pub open spec fn s_proc_macro_to_def(db: Database, src: InFile<AstPtr>) -> Option<MacroId> {
    match s_resolve(db, src.file_id, src.value, KeyKind::ProcMacro) {
        Some(DefValue::ProcMacro(id)) => Some(MacroId::ProcMacroId(id)),
        _ => None,
    }
}

/// Resolution of an interned macro call to the macro it invokes, through
/// the syntax of the macro's definition.
pub open spec fn s_macro_call_to_macro_id(db: Database, call: MacroCallId) -> Option<MacroId> {
    match db.macro_calls[call.0 as int].def_ast {
        MacroDefAst::Decl(p) => s_macro_to_def(db, p),
        MacroDefAst::ProcFn(p) => s_proc_macro_to_def(db, p),
    }
}

pub open spec fn s_item_to_macro_call(db: Database, src: InFile<AstPtr>) -> Option<MacroCallId> {
    match s_resolve(db, src.file_id, src.value, KeyKind::AttrMacroCall) {
        Some(DefValue::MacroCall(id)) => Some(id),
        _ => None,
    }
}

pub open spec fn s_macro_call_to_macro_call(db: Database, src: InFile<AstPtr>) -> Option<
    MacroCallId,
> {
    match s_resolve(db, src.file_id, src.value, KeyKind::MacroCall) {
        Some(DefValue::MacroCall(id)) => Some(id),
        _ => None,
    }
}

/// The derive association of an attribute on an item: the attribute index,
/// the derive-collecting call, and the interned derive data.
pub open spec fn s_attr_to_derive_macro_call(
    db: Database,
    item: InFile<AstPtr>,
    attr: AstPtr,
) -> Option<(crate::ids::AttrId, MacroCallId, crate::ids::DeriveId)> {
    match s_find_container(db, InFile { file_id: item.file_id, value: item.value.raw }) {
        None => None,
        Some(c) => match s_children_get(db, c, item.file_id, KeyKind::DeriveMacroCall, attr) {
            Some(DefValue::Derive(a, call, d)) => Some((a, call, d)),
            _ => None,
        },
    }
}

/// Whether any derive attribute is expanded on the container owning an ADT
/// node.
pub open spec fn s_has_derives(db: Database, adt: InFile<AstPtr>) -> bool {
    match s_find_container(db, InFile { file_id: adt.file_id, value: adt.value.raw }) {
        None => false,
        Some(c) => exists|p: AstPtr|
            (#[trigger] s_children_get(db, c, adt.file_id, KeyKind::DeriveMacroCall, p)) is Some,
    }
}

/// The first module of a source file, as `resolve` on a file root gives it.
pub open spec fn s_source_file_to_def(db: Database, src: InFile<AstPtr>) -> Option<ModuleId> {
    s_first_module_of_file(db, src.file_id)
}

/// The generic-parameter owner enclosing a node.
pub open spec fn s_generic_container_walk(db: Database, n: InFile<u32>) -> Option<GenericDefId>
    decreases db.file_rank(n.file_id), n.value, 0int,
        when db.wf() && s_valid_node(db, n)
    via s_generic_container_walk_decreases
{
    match s_parent_ancestor(db, n) {
        None => None,
        Some(a) => {
            let k = s_kind(db, a);
            let ptr = AstPtr { kind: k, raw: a.value };
            let src = InFile { file_id: a.file_id, value: ptr };
            let hit: Option<GenericDefId> = if k == SyntaxKind::Fn {
                match s_fn_to_def(db, src) {
                    Some(id) => Some(GenericDefId::FunctionId(id)),
                    None => None,
                }
            } else if k == SyntaxKind::Struct {
                match s_struct_to_def(db, src) {
                    Some(id) => Some(GenericDefId::AdtId(AdtId::StructId(id))),
                    None => None,
                }
            } else if k == SyntaxKind::Enum {
                match s_enum_to_def(db, src) {
                    Some(id) => Some(GenericDefId::AdtId(AdtId::EnumId(id))),
                    None => None,
                }
            } else if k == SyntaxKind::Trait {
                match s_trait_to_def(db, src) {
                    Some(id) => Some(GenericDefId::TraitId(id)),
                    None => None,
                }
            } else if k == SyntaxKind::TraitAlias {
                match s_trait_alias_to_def(db, src) {
                    Some(id) => Some(GenericDefId::TraitAliasId(id)),
                    None => None,
                }
            } else if k == SyntaxKind::TypeAlias {
                match s_type_alias_to_def(db, src) {
                    Some(id) => Some(GenericDefId::TypeAliasId(id)),
                    None => None,
                }
            } else if k == SyntaxKind::Impl {
                match s_impl_to_def(db, src) {
                    Some(id) => Some(GenericDefId::ImplId(id)),
                    None => None,
                }
            } else {
                None
            };
            match hit {
                Some(g) => Some(g),
                None => s_generic_container_walk(db, a),
            }
        },
    }
}

#[via_fn]
proof fn s_generic_container_walk_decreases(db: Database, n: InFile<u32>) {
    lemma_parent_ancestor_smaller(db, n);
}

/// The body owner enclosing a node (a function, constant, static or enum
/// variant).
pub open spec fn s_pat_container_walk(db: Database, n: InFile<u32>) -> Option<DefWithBodyId>
    decreases db.file_rank(n.file_id), n.value, 0int,
        when db.wf() && s_valid_node(db, n)
    via s_pat_container_walk_decreases
{
    match s_parent_ancestor(db, n) {
        None => None,
        Some(a) => {
            let k = s_kind(db, a);
            let ptr = AstPtr { kind: k, raw: a.value };
            let src = InFile { file_id: a.file_id, value: ptr };
            let hit: Option<DefWithBodyId> = if k == SyntaxKind::Fn {
                match s_fn_to_def(db, src) {
                    Some(id) => Some(DefWithBodyId::FunctionId(id)),
                    None => None,
                }
            } else if k == SyntaxKind::Const {
                match s_const_to_def(db, src) {
                    Some(id) => Some(DefWithBodyId::ConstId(id)),
                    None => None,
                }
            } else if k == SyntaxKind::Static {
                match s_static_to_def(db, src) {
                    Some(id) => Some(DefWithBodyId::StaticId(id)),
                    None => None,
                }
            } else if k == SyntaxKind::Variant {
                match s_enum_variant_to_def(db, src) {
                    Some(id) => Some(DefWithBodyId::VariantId(id)),
                    None => None,
                }
            } else {
                None
            };
            match hit {
                Some(d) => Some(d),
                None => s_pat_container_walk(db, a),
            }
        },
    }
}

#[via_fn]
proof fn s_pat_container_walk_decreases(db: Database, n: InFile<u32>) {
    lemma_parent_ancestor_smaller(db, n);
}

/// A generic parameter resolved through its owner's child map.
pub open spec fn s_type_param_to_def(db: Database, src: InFile<AstPtr>) -> Option<TypeParamId> {
    match s_generic_container_walk(db, InFile { file_id: src.file_id, value: src.value.raw }) {
        None => None,
        Some(g) => match s_children_get(
            db,
            ChildContainer::GenericDefId(g),
            src.file_id,
            KeyKind::TypeParam,
            src.value,
        ) {
            Some(DefValue::TypeOrConstParam(id)) => Some(TypeParamId(id)),
            _ => None,
        },
    }
}

pub open spec fn s_const_param_to_def(db: Database, src: InFile<AstPtr>) -> Option<ConstParamId> {
    match s_generic_container_walk(db, InFile { file_id: src.file_id, value: src.value.raw }) {
        None => None,
        Some(g) => match s_children_get(
            db,
            ChildContainer::GenericDefId(g),
            src.file_id,
            KeyKind::ConstParam,
            src.value,
        ) {
            Some(DefValue::TypeOrConstParam(id)) => Some(ConstParamId(id)),
            _ => None,
        },
    }
}

pub open spec fn s_lifetime_param_to_def(db: Database, src: InFile<AstPtr>) -> Option<
    LifetimeParamId,
> {
    match s_generic_container_walk(db, InFile { file_id: src.file_id, value: src.value.raw }) {
        None => None,
        Some(g) => match s_children_get(
            db,
            ChildContainer::GenericDefId(g),
            src.file_id,
            KeyKind::LifetimeParam,
            src.value,
        ) {
            Some(DefValue::LifetimeParam(id)) => Some(id),
            _ => None,
        },
    }
}

pub open spec fn s_generic_param_to_def(db: Database, src: InFile<AstPtr>) -> Option<
    GenericParamId,
> {
    if src.value.kind == SyntaxKind::ConstParam {
        match s_const_param_to_def(db, src) {
            Some(id) => Some(GenericParamId::ConstParamId(id)),
            None => None,
        }
    } else if src.value.kind == SyntaxKind::LifetimeParam {
        match s_lifetime_param_to_def(db, src) {
            Some(id) => Some(GenericParamId::LifetimeParamId(id)),
            None => None,
        }
    } else if src.value.kind == SyntaxKind::TypeParam {
        match s_type_param_to_def(db, src) {
            Some(id) => Some(GenericParamId::TypeParamId(id)),
            None => None,
        }
    } else {
        None
    }
}

/// A binding pattern resolved through its body's source map.
pub open spec fn s_bind_pat_to_def(db: Database, src: InFile<AstPtr>) -> Option<
    (DefWithBodyId, BindingId),
> {
    match s_pat_container_walk(db, InFile { file_id: src.file_id, value: src.value.raw }) {
        None => None,
        Some(container) => {
            if db.body_owner_loc(container).file_id == src.file_id {
                match s_ptr_index_of(db.body_of(container).bindings@, src.value) {
                    Some(i) => Some((container, BindingId(i as u32))),
                    None => None,
                }
            } else {
                None
            }
        },
    }
}

/// The implicit self-parameter binding of the enclosing body.
pub open spec fn s_self_param_to_def(db: Database, src: InFile<AstPtr>) -> Option<
    (DefWithBodyId, BindingId),
> {
    match s_pat_container_walk(db, InFile { file_id: src.file_id, value: src.value.raw }) {
        None => None,
        Some(container) => match db.body_of(container).self_param {
            Some(b) => Some((container, BindingId(b))),
            None => None,
        },
    }
}

/// A label resolved through its body's source map.
pub open spec fn s_label_to_def(db: Database, src: InFile<AstPtr>) -> Option<
    (DefWithBodyId, LabelId),
> {
    match s_pat_container_walk(db, InFile { file_id: src.file_id, value: src.value.raw }) {
        None => None,
        Some(container) => {
            if db.body_owner_loc(container).file_id == src.file_id {
                match s_ptr_index_of(db.body_of(container).labels@, src.value) {
                    Some(i) => Some((container, LabelId(i as u32))),
                    None => None,
                }
            } else {
                None
            }
        },
    }
}

impl SourceToDefCache {
    /// Bulk enumeration for callers that want a container's whole child
    /// map rather than one lookup.  Querying a pair a second time within
    /// one session returns the association computed the first time and
    /// leaves the cache untouched.
    pub fn children_of(&mut self, db: &Database, container: ChildContainer, file_id: HirFileId) -> (r: DynMap)
        requires
            db.wf(),
            old(self).inv(*db),
            db.valid_container(container),
            db.valid_hir_file(file_id),
        ensures
            final(self).inv(*db),
            r.wf(),
            forall|key: KeyKind, ptr: AstPtr| #[trigger] r.spec_fwd(key, ptr) == s_children_get(
                *db,
                container,
                file_id,
                key,
                ptr,
            ),
            dynmap_cache_view(old(self).dynmap_cache).contains_key((container, file_id))
                ==> final(self).dynmap_cache == old(self).dynmap_cache,
    {
        self.cache_for(db, container, file_id)
    }

    pub fn source_file_to_def(&mut self, db: &Database, src: InFile<AstPtr>) -> (r: Option<
        ModuleId,
    >)
        requires
            db.wf(),
            old(self).inv(*db),
            db.valid_hir_file(src.file_id),
        ensures
            final(self).inv(*db),
            r == s_source_file_to_def(*db, src),
            match r {
                Some(m) => db.valid_module(m),
                None => true,
            },
    {
        let orig = original_file_of(db, src.file_id);
        let mods = self.file_to_def(db, orig);
        proof {
            lemma_file_modules_valid(*db, orig, db.relevant_crates[orig.0 as int].len() as int);
        }
        module_vec_get(&mods, 0)
    }

    pub fn trait_to_def(&mut self, db: &Database, src: InFile<AstPtr>) -> (r: Option<TraitId>)
        requires
            db.wf(),
            old(self).inv(*db),
            s_valid_src(*db, src),
        ensures
            final(self).inv(*db),
            r == s_trait_to_def(*db, src),
            match r {
                Some(id) => id.0 < db.traits.len(),
                None => true,
            },
    {
        match self.to_def(db, src.file_id, src.value, KeyKind::Trait) {
            Some(DefValue::Trait(id)) => Some(id),
            _ => None,
        }
    }

    pub fn trait_alias_to_def(&mut self, db: &Database, src: InFile<AstPtr>) -> (r: Option<
        TraitAliasId,
    >)
        requires
            db.wf(),
            old(self).inv(*db),
            s_valid_src(*db, src),
        ensures
            final(self).inv(*db),
            r == s_trait_alias_to_def(*db, src),
            match r {
                Some(id) => id.0 < db.trait_aliases.len(),
                None => true,
            },
    {
        match self.to_def(db, src.file_id, src.value, KeyKind::TraitAlias) {
            Some(DefValue::TraitAlias(id)) => Some(id),
            _ => None,
        }
    }

    pub fn impl_to_def(&mut self, db: &Database, src: InFile<AstPtr>) -> (r: Option<ImplId>)
        requires
            db.wf(),
            old(self).inv(*db),
            s_valid_src(*db, src),
        ensures
            final(self).inv(*db),
            r == s_impl_to_def(*db, src),
            match r {
                Some(id) => id.0 < db.impls.len(),
                None => true,
            },
    {
        match self.to_def(db, src.file_id, src.value, KeyKind::Impl) {
            Some(DefValue::Impl(id)) => Some(id),
            _ => None,
        }
    }

    pub fn fn_to_def(&mut self, db: &Database, src: InFile<AstPtr>) -> (r: Option<FunctionId>)
        requires
            db.wf(),
            old(self).inv(*db),
            s_valid_src(*db, src),
        ensures
            final(self).inv(*db),
            r == s_fn_to_def(*db, src),
            match r {
                Some(id) => id.0 < db.functions.len(),
                None => true,
            },
    {
        match self.to_def(db, src.file_id, src.value, KeyKind::Function) {
            Some(DefValue::Function(id)) => Some(id),
            _ => None,
        }
    }

    pub fn struct_to_def(&mut self, db: &Database, src: InFile<AstPtr>) -> (r: Option<StructId>)
        requires
            db.wf(),
            old(self).inv(*db),
            s_valid_src(*db, src),
        ensures
            final(self).inv(*db),
            r == s_struct_to_def(*db, src),
            match r {
                Some(id) => id.0 < db.structs.len(),
                None => true,
            },
    {
        match self.to_def(db, src.file_id, src.value, KeyKind::Struct) {
            Some(DefValue::Struct(id)) => Some(id),
            _ => None,
        }
    }

    pub fn enum_to_def(&mut self, db: &Database, src: InFile<AstPtr>) -> (r: Option<EnumId>)
        requires
            db.wf(),
            old(self).inv(*db),
            s_valid_src(*db, src),
        ensures
            final(self).inv(*db),
            r == s_enum_to_def(*db, src),
            match r {
                Some(id) => id.0 < db.enums.len(),
                None => true,
            },
    {
        match self.to_def(db, src.file_id, src.value, KeyKind::Enum) {
            Some(DefValue::Enum(id)) => Some(id),
            _ => None,
        }
    }

    pub fn union_to_def(&mut self, db: &Database, src: InFile<AstPtr>) -> (r: Option<UnionId>)
        requires
            db.wf(),
            old(self).inv(*db),
            s_valid_src(*db, src),
        ensures
            final(self).inv(*db),
            r == s_union_to_def(*db, src),
            match r {
                Some(id) => id.0 < db.unions.len(),
                None => true,
            },
    {
        match self.to_def(db, src.file_id, src.value, KeyKind::Union) {
            Some(DefValue::Union(id)) => Some(id),
            _ => None,
        }
    }

    pub fn static_to_def(&mut self, db: &Database, src: InFile<AstPtr>) -> (r: Option<StaticId>)
        requires
            db.wf(),
            old(self).inv(*db),
            s_valid_src(*db, src),
        ensures
            final(self).inv(*db),
            r == s_static_to_def(*db, src),
            match r {
                Some(id) => id.0 < db.statics.len(),
                None => true,
            },
    {
        match self.to_def(db, src.file_id, src.value, KeyKind::Static) {
            Some(DefValue::Static(id)) => Some(id),
            _ => None,
        }
    }

    pub fn const_to_def(&mut self, db: &Database, src: InFile<AstPtr>) -> (r: Option<ConstId>)
        requires
            db.wf(),
            old(self).inv(*db),
            s_valid_src(*db, src),
        ensures
            final(self).inv(*db),
            r == s_const_to_def(*db, src),
            match r {
                Some(id) => id.0 < db.consts.len(),
                None => true,
            },
    {
        match self.to_def(db, src.file_id, src.value, KeyKind::Const) {
            Some(DefValue::Const(id)) => Some(id),
            _ => None,
        }
    }

    pub fn type_alias_to_def(&mut self, db: &Database, src: InFile<AstPtr>) -> (r: Option<
        TypeAliasId,
    >)
        requires
            db.wf(),
            old(self).inv(*db),
            s_valid_src(*db, src),
        ensures
            final(self).inv(*db),
            r == s_type_alias_to_def(*db, src),
            match r {
                Some(id) => id.0 < db.type_aliases.len(),
                None => true,
            },
    {
        match self.to_def(db, src.file_id, src.value, KeyKind::TypeAlias) {
            Some(DefValue::TypeAlias(id)) => Some(id),
            _ => None,
        }
    }

    pub fn record_field_to_def(&mut self, db: &Database, src: InFile<AstPtr>) -> (r: Option<
        crate::ids::FieldId,
    >)
        requires
            db.wf(),
            old(self).inv(*db),
            s_valid_src(*db, src),
        ensures
            final(self).inv(*db),
            r == s_record_field_to_def(*db, src),
            match r {
                Some(id) => db.valid_variant(id.parent),
                None => true,
            },
    {
        match self.to_def(db, src.file_id, src.value, KeyKind::RecordField) {
            Some(DefValue::Field(id)) => Some(id),
            _ => None,
        }
    }

    pub fn tuple_field_to_def(&mut self, db: &Database, src: InFile<AstPtr>) -> (r: Option<
        crate::ids::FieldId,
    >)
        requires
            db.wf(),
            old(self).inv(*db),
            s_valid_src(*db, src),
        ensures
            final(self).inv(*db),
            r == s_tuple_field_to_def(*db, src),
            match r {
                Some(id) => db.valid_variant(id.parent),
                None => true,
            },
    {
        match self.to_def(db, src.file_id, src.value, KeyKind::TupleField) {
            Some(DefValue::Field(id)) => Some(id),
            _ => None,
        }
    }

    pub fn block_to_def(&mut self, db: &Database, src: InFile<AstPtr>) -> (r: Option<BlockId>)
        requires
            db.wf(),
            old(self).inv(*db),
            s_valid_src(*db, src),
        ensures
            final(self).inv(*db),
            r == s_block_to_def(*db, src),
            match r {
                Some(id) => id.0 < db.blocks.len(),
                None => true,
            },
    {
        match self.to_def(db, src.file_id, src.value, KeyKind::Block) {
            Some(DefValue::Block(id)) => Some(id),
            _ => None,
        }
    }

    pub fn enum_variant_to_def(&mut self, db: &Database, src: InFile<AstPtr>) -> (r: Option<
        EnumVariantId,
    >)
        requires
            db.wf(),
            old(self).inv(*db),
            s_valid_src(*db, src),
        ensures
            final(self).inv(*db),
            r == s_enum_variant_to_def(*db, src),
            match r {
                Some(id) => id.0 < db.enum_variants.len(),
                None => true,
            },
    {
        match self.to_def(db, src.file_id, src.value, KeyKind::EnumVariant) {
            Some(DefValue::EnumVariant(id)) => Some(id),
            _ => None,
        }
    }

    pub fn extern_crate_to_def(&mut self, db: &Database, src: InFile<AstPtr>) -> (r: Option<
        ExternCrateId,
    >)
        requires
            db.wf(),
            old(self).inv(*db),
            s_valid_src(*db, src),
        ensures
            final(self).inv(*db),
            r == s_extern_crate_to_def(*db, src),
            match r {
                Some(id) => id.0 < db.extern_crates.len(),
                None => true,
            },
    {
        match self.to_def(db, src.file_id, src.value, KeyKind::ExternCrate) {
            Some(DefValue::ExternCrate(id)) => Some(id),
            _ => None,
        }
    }

    pub fn use_to_def(&mut self, db: &Database, src: InFile<AstPtr>) -> (r: Option<UseId>)
        requires
            db.wf(),
            old(self).inv(*db),
            s_valid_src(*db, src),
        ensures
            final(self).inv(*db),
            r == s_use_to_def(*db, src),
            match r {
                Some(id) => id.0 < db.uses.len(),
                None => true,
            },
    {
        match self.to_def(db, src.file_id, src.value, KeyKind::Use) {
            Some(DefValue::Use(id)) => Some(id),
            _ => None,
        }
    }

    pub fn adt_to_def(&mut self, db: &Database, src: InFile<AstPtr>) -> (r: Option<AdtId>)
        requires
            db.wf(),
            old(self).inv(*db),
            s_valid_src(*db, src),
        ensures
            final(self).inv(*db),
            r == s_adt_to_def(*db, src),
    {
        if src.value.kind == SyntaxKind::Enum {
            match self.enum_to_def(db, src) {
                Some(id) => Some(AdtId::EnumId(id)),
                None => None,
            }
        } else if src.value.kind == SyntaxKind::Struct {
            match self.struct_to_def(db, src) {
                Some(id) => Some(AdtId::StructId(id)),
                None => None,
            }
        } else if src.value.kind == SyntaxKind::Union {
            match self.union_to_def(db, src) {
                Some(id) => Some(AdtId::UnionId(id)),
                None => None,
            }
        } else {
            None
        }
    }

    pub fn macro_to_def(&mut self, db: &Database, src: InFile<AstPtr>) -> (r: Option<MacroId>)
        requires
            db.wf(),
            old(self).inv(*db),
            s_valid_src(*db, src),
        ensures
            final(self).inv(*db),
            r == s_macro_to_def(*db, src),
    {
        if src.value.kind == SyntaxKind::MacroRules {
            match self.to_def(db, src.file_id, src.value, KeyKind::MacroRules) {
                Some(DefValue::MacroRules(id)) => Some(MacroId::MacroRulesId(id)),
                _ => None,
            }
        } else {
            match self.to_def(db, src.file_id, src.value, KeyKind::Macro2) {
                Some(DefValue::Macro2(id)) => Some(MacroId::Macro2Id(id)),
                _ => None,
            }
        }
    }

    pub fn proc_macro_to_def(&mut self, db: &Database, src: InFile<AstPtr>) -> (r: Option<MacroId>)
        requires
            db.wf(),
            old(self).inv(*db),
            s_valid_src(*db, src),
        ensures
            final(self).inv(*db),
            r == s_proc_macro_to_def(*db, src),
    {
        match self.to_def(db, src.file_id, src.value, KeyKind::ProcMacro) {
            Some(DefValue::ProcMacro(id)) => Some(MacroId::ProcMacroId(id)),
            _ => None,
        }
    }

    /// Resolve an interned macro call to the macro it invokes, re-resolving
    /// the definition's pointer (and caching expansion metadata when the
    /// definition sits inside another expansion).
    pub fn macro_call_to_macro_id(&mut self, db: &Database, macro_call_id: MacroCallId) -> (r:
        Option<MacroId>)
        requires
            db.wf(),
            old(self).inv(*db),
            macro_call_id.0 < db.macro_calls.len(),
        ensures
            final(self).inv(*db),
            r == s_macro_call_to_macro_id(*db, macro_call_id),
    {
        proof {
            let ghost idx = macro_call_id.0 as int;
            assert(db.macro_calls[idx] == db.macro_calls[idx]);
        }
        let def_ast = db.macro_calls[macro_call_id.0 as usize].def_ast;
        match def_ast {
            MacroDefAst::Decl(p) => {
                match p.file_id {
                    HirFileId::Macro(m) => {
                        let _info = self.expansion_info(db, m);
                    },
                    HirFileId::File(_) => {},
                }
                self.macro_to_def(db, p)
            },
            MacroDefAst::ProcFn(p) => {
                match p.file_id {
                    HirFileId::Macro(m) => {
                        let _info = self.expansion_info(db, m);
                    },
                    HirFileId::File(_) => {},
                }
                self.proc_macro_to_def(db, p)
            },
        }
    }

    pub fn item_to_macro_call(&mut self, db: &Database, src: InFile<AstPtr>) -> (r: Option<
        MacroCallId,
    >)
        requires
            db.wf(),
            old(self).inv(*db),
            s_valid_src(*db, src),
        ensures
            final(self).inv(*db),
            r == s_item_to_macro_call(*db, src),
    {
        match self.to_def(db, src.file_id, src.value, KeyKind::AttrMacroCall) {
            Some(DefValue::MacroCall(id)) => Some(id),
            _ => None,
        }
    }

    pub fn macro_call_to_macro_call(&mut self, db: &Database, src: InFile<AstPtr>) -> (r: Option<
        MacroCallId,
    >)
        requires
            db.wf(),
            old(self).inv(*db),
            s_valid_src(*db, src),
        ensures
            final(self).inv(*db),
            r == s_macro_call_to_macro_call(*db, src),
    {
        match self.to_def(db, src.file_id, src.value, KeyKind::MacroCall) {
            Some(DefValue::MacroCall(id)) => Some(id),
            _ => None,
        }
    }

    /// The derive association of an attribute on an item: attribute index,
    /// derive-collecting call, and one call per derive path.
    #[verifier::loop_isolation(false)]
    pub fn attr_to_derive_macro_call(
        &mut self,
        db: &Database,
        item: InFile<AstPtr>,
        attr: AstPtr,
    ) -> (r: Option<(crate::ids::AttrId, MacroCallId, Vec<Option<MacroCallId>>)>)
        requires
            db.wf(),
            old(self).inv(*db),
            s_valid_src(*db, item),
        ensures
            final(self).inv(*db),
            match s_attr_to_derive_macro_call(*db, item, attr) {
                Some(t) => match r {
                    Some(e) => {
                        let dd = db.derive_defs[t.2.0 as int];
                        e.0 == t.0 && e.1 == t.1 && e.2@ == dd.sub_calls@
                    },
                    None => false,
                },
                None => r is None,
            },
    {
        let n = InFile { file_id: item.file_id, value: item.value.raw };
        match self.find_container(db, n) {
            None => None,
            Some(c) => {
                let m = self.cache_for(db, c, item.file_id);
                match m.get_fwd(KeyKind::DeriveMacroCall, attr) {
                    Some(DefValue::Derive(a, call, d)) => {
                        proof {
                            crate::child_by_source::lemma_children_valid(
                                *db,
                                c,
                                item.file_id,
                                KeyKind::DeriveMacroCall,
                                attr,
                            );
                        }
                        let subs = &db.derive_defs[d.0 as usize].sub_calls;
                        let mut copy: Vec<Option<MacroCallId>> = Vec::new();
                        let mut i: usize = 0;
                        while i < subs.len()
                            invariant
                                0 <= i <= subs.len(),
                                copy@ =~= subs@.subrange(0, i as int),
                            decreases subs.len() - i,
                        {
                            copy.push(subs[i]);
                            proof {
                                assert(copy@ =~= subs@.subrange(0, i + 1));
                            }
                            i += 1;
                        }
                        proof {
                            assert(copy@ =~= subs@);
                        }
                        Some((a, call, copy))
                    },
                    _ => None,
                }
            },
        }
    }

    /// Whether any derive attribute is expanded on the container owning an
    /// ADT node; checked without materializing the derive store.
    pub fn has_derives(&mut self, db: &Database, adt: InFile<AstPtr>) -> (r: bool)
        requires
            db.wf(),
            old(self).inv(*db),
            s_valid_src(*db, adt),
        ensures
            final(self).inv(*db),
            r == s_has_derives(*db, adt),
    {
        match self.dyn_map(db, adt) {
            None => false,
            Some(m) => {
                let e = m.is_empty(KeyKind::DeriveMacroCall);
                proof {
                    let n = InFile { file_id: adt.file_id, value: adt.value.raw };
                    let c = s_find_container(*db, n)->Some_0;
                    if e {
                        assert forall|p: AstPtr|
                            !((#[trigger] s_children_get(
                                *db,
                                c,
                                adt.file_id,
                                KeyKind::DeriveMacroCall,
                                p,
                            )) is Some) by {
                            assert(m.spec_fwd(KeyKind::DeriveMacroCall, p) is None);
                        }
                    } else {
                        let p = choose|p: AstPtr|
                            !(#[trigger] m.spec_fwd(KeyKind::DeriveMacroCall, p) is None);
                        assert(s_children_get(
                            *db,
                            c,
                            adt.file_id,
                            KeyKind::DeriveMacroCall,
                            p,
                        ) is Some);
                    }
                }
                !e
            },
        }
    }

    /// The generic-parameter owner enclosing a node.
    pub fn find_generic_param_container(&mut self, db: &Database, n: InFile<u32>) -> (r: Option<
        GenericDefId,
    >)
        requires
            db.wf(),
            old(self).inv(*db),
            s_valid_node(*db, n),
        ensures
            final(self).inv(*db),
            r == s_generic_container_walk(*db, n),
            match r {
                Some(g) => db.valid_generic_def(g),
                None => true,
            },
        decreases db.file_rank(n.file_id), n.value,
    {
        match self.parent_ancestor(db, n) {
            None => None,
            Some(a) => {
                let tree = db_tree(db, a.file_id);
                let k = tree.kind_of(a.value);
                let ptr = AstPtr { kind: k, raw: a.value };
                let src = InFile { file_id: a.file_id, value: ptr };
                let hit: Option<GenericDefId> = if k == SyntaxKind::Fn {
                    match self.fn_to_def(db, src) {
                        Some(id) => Some(GenericDefId::FunctionId(id)),
                        None => None,
                    }
                } else if k == SyntaxKind::Struct {
                    match self.struct_to_def(db, src) {
                        Some(id) => Some(GenericDefId::AdtId(AdtId::StructId(id))),
                        None => None,
                    }
                } else if k == SyntaxKind::Enum {
                    match self.enum_to_def(db, src) {
                        Some(id) => Some(GenericDefId::AdtId(AdtId::EnumId(id))),
                        None => None,
                    }
                } else if k == SyntaxKind::Trait {
                    match self.trait_to_def(db, src) {
                        Some(id) => Some(GenericDefId::TraitId(id)),
                        None => None,
                    }
                } else if k == SyntaxKind::TraitAlias {
                    match self.trait_alias_to_def(db, src) {
                        Some(id) => Some(GenericDefId::TraitAliasId(id)),
                        None => None,
                    }
                } else if k == SyntaxKind::TypeAlias {
                    match self.type_alias_to_def(db, src) {
                        Some(id) => Some(GenericDefId::TypeAliasId(id)),
                        None => None,
                    }
                } else if k == SyntaxKind::Impl {
                    match self.impl_to_def(db, src) {
                        Some(id) => Some(GenericDefId::ImplId(id)),
                        None => None,
                    }
                } else {
                    None
                };
                match hit {
                    Some(g) => Some(g),
                    None => self.find_generic_param_container(db, a),
                }
            },
        }
    }

    /// The body owner enclosing a node.
    pub fn find_pat_or_label_container(&mut self, db: &Database, n: InFile<u32>) -> (r: Option<
        DefWithBodyId,
    >)
        requires
            db.wf(),
            old(self).inv(*db),
            s_valid_node(*db, n),
        ensures
            final(self).inv(*db),
            r == s_pat_container_walk(*db, n),
            match r {
                Some(d) => db.valid_body_owner(d),
                None => true,
            },
        decreases db.file_rank(n.file_id), n.value,
    {
        match self.parent_ancestor(db, n) {
            None => None,
            Some(a) => {
                let tree = db_tree(db, a.file_id);
                let k = tree.kind_of(a.value);
                let ptr = AstPtr { kind: k, raw: a.value };
                let src = InFile { file_id: a.file_id, value: ptr };
                let hit: Option<DefWithBodyId> = if k == SyntaxKind::Fn {
                    match self.fn_to_def(db, src) {
                        Some(id) => Some(DefWithBodyId::FunctionId(id)),
                        None => None,
                    }
                } else if k == SyntaxKind::Const {
                    match self.const_to_def(db, src) {
                        Some(id) => Some(DefWithBodyId::ConstId(id)),
                        None => None,
                    }
                } else if k == SyntaxKind::Static {
                    match self.static_to_def(db, src) {
                        Some(id) => Some(DefWithBodyId::StaticId(id)),
                        None => None,
                    }
                } else if k == SyntaxKind::Variant {
                    match self.enum_variant_to_def(db, src) {
                        Some(id) => Some(DefWithBodyId::VariantId(id)),
                        None => None,
                    }
                } else {
                    None
                };
                match hit {
                    Some(d) => Some(d),
                    None => self.find_pat_or_label_container(db, a),
                }
            },
        }
    }

    pub fn type_param_to_def(&mut self, db: &Database, src: InFile<AstPtr>) -> (r: Option<
        TypeParamId,
    >)
        requires
            db.wf(),
            old(self).inv(*db),
            s_valid_src(*db, src),
        ensures
            final(self).inv(*db),
            r == s_type_param_to_def(*db, src),
    {
        let n = InFile { file_id: src.file_id, value: src.value.raw };
        match self.find_generic_param_container(db, n) {
            None => None,
            Some(g) => {
                let m = self.cache_for(db, ChildContainer::GenericDefId(g), src.file_id);
                match m.get_fwd(KeyKind::TypeParam, src.value) {
                    Some(DefValue::TypeOrConstParam(id)) => Some(TypeParamId::from_unchecked(id)),
                    _ => None,
                }
            },
        }
    }

    pub fn const_param_to_def(&mut self, db: &Database, src: InFile<AstPtr>) -> (r: Option<
        ConstParamId,
    >)
        requires
            db.wf(),
            old(self).inv(*db),
            s_valid_src(*db, src),
        ensures
            final(self).inv(*db),
            r == s_const_param_to_def(*db, src),
    {
        let n = InFile { file_id: src.file_id, value: src.value.raw };
        match self.find_generic_param_container(db, n) {
            None => None,
            Some(g) => {
                let m = self.cache_for(db, ChildContainer::GenericDefId(g), src.file_id);
                match m.get_fwd(KeyKind::ConstParam, src.value) {
                    Some(DefValue::TypeOrConstParam(id)) => Some(ConstParamId::from_unchecked(id)),
                    _ => None,
                }
            },
        }
    }

    pub fn lifetime_param_to_def(&mut self, db: &Database, src: InFile<AstPtr>) -> (r: Option<
        LifetimeParamId,
    >)
        requires
            db.wf(),
            old(self).inv(*db),
            s_valid_src(*db, src),
        ensures
            final(self).inv(*db),
            r == s_lifetime_param_to_def(*db, src),
    {
        let n = InFile { file_id: src.file_id, value: src.value.raw };
        match self.find_generic_param_container(db, n) {
            None => None,
            Some(g) => {
                let m = self.cache_for(db, ChildContainer::GenericDefId(g), src.file_id);
                match m.get_fwd(KeyKind::LifetimeParam, src.value) {
                    Some(DefValue::LifetimeParam(id)) => Some(id),
                    _ => None,
                }
            },
        }
    }

    pub fn generic_param_to_def(&mut self, db: &Database, src: InFile<AstPtr>) -> (r: Option<
        GenericParamId,
    >)
        requires
            db.wf(),
            old(self).inv(*db),
            s_valid_src(*db, src),
        ensures
            final(self).inv(*db),
            r == s_generic_param_to_def(*db, src),
    {
        if src.value.kind == SyntaxKind::ConstParam {
            match self.const_param_to_def(db, src) {
                Some(id) => Some(GenericParamId::ConstParamId(id)),
                None => None,
            }
        } else if src.value.kind == SyntaxKind::LifetimeParam {
            match self.lifetime_param_to_def(db, src) {
                Some(id) => Some(GenericParamId::LifetimeParamId(id)),
                None => None,
            }
        } else if src.value.kind == SyntaxKind::TypeParam {
            match self.type_param_to_def(db, src) {
                Some(id) => Some(GenericParamId::TypeParamId(id)),
                None => None,
            }
        } else {
            None
        }
    }

    pub fn bind_pat_to_def(&mut self, db: &Database, src: InFile<AstPtr>) -> (r: Option<
        (DefWithBodyId, BindingId),
    >)
        requires
            db.wf(),
            old(self).inv(*db),
            s_valid_src(*db, src),
        ensures
            final(self).inv(*db),
            r == s_bind_pat_to_def(*db, src),
    {
        let n = InFile { file_id: src.file_id, value: src.value.raw };
        match self.find_pat_or_label_container(db, n) {
            None => None,
            Some(container) => {
                proof {
                    assert(db.wf_body(db.body_owner_loc(container), db.body_of(container)));
                }
                let loc = body_owner_loc_of(db, container);
                if !hir_file_eq(loc.file_id, src.file_id) {
                    return None;
                }
                let body = body_of_ref(db, container);
                match find_ptr_index(&body.bindings, src.value) {
                    Some(i) => Some((container, BindingId(i))),
                    None => None,
                }
            },
        }
    }

    pub fn self_param_to_def(&mut self, db: &Database, src: InFile<AstPtr>) -> (r: Option<
        (DefWithBodyId, BindingId),
    >)
        requires
            db.wf(),
            old(self).inv(*db),
            s_valid_src(*db, src),
        ensures
            final(self).inv(*db),
            r == s_self_param_to_def(*db, src),
    {
        let n = InFile { file_id: src.file_id, value: src.value.raw };
        match self.find_pat_or_label_container(db, n) {
            None => None,
            Some(container) => {
                let body = body_of_ref(db, container);
                match body.self_param {
                    Some(b) => Some((container, BindingId(b))),
                    None => None,
                }
            },
        }
    }

    pub fn label_to_def(&mut self, db: &Database, src: InFile<AstPtr>) -> (r: Option<
        (DefWithBodyId, LabelId),
    >)
        requires
            db.wf(),
            old(self).inv(*db),
            s_valid_src(*db, src),
        ensures
            final(self).inv(*db),
            r == s_label_to_def(*db, src),
    {
        let n = InFile { file_id: src.file_id, value: src.value.raw };
        match self.find_pat_or_label_container(db, n) {
            None => None,
            Some(container) => {
                proof {
                    assert(db.wf_body(db.body_owner_loc(container), db.body_of(container)));
                }
                let loc = body_owner_loc_of(db, container);
                if !hir_file_eq(loc.file_id, src.file_id) {
                    return None;
                }
                let body = body_of_ref(db, container);
                match find_ptr_index(&body.labels, src.value) {
                    Some(i) => Some((container, LabelId(i))),
                    None => None,
                }
            },
        }
    }
}

proof fn lemma_original_file_valid(db: Database, f: HirFileId)
    requires
        db.wf(),
        db.valid_hir_file(f),
    ensures
        db.valid_file(s_original_file(db, f)),
    decreases db.file_rank(f),
{
    match f {
        HirFileId::File(_) => {},
        HirFileId::Macro(m) => {
            assert(db.macro_files[m.0 as int] == db.macro_files[m.0 as int]);
            lemma_original_file_valid(db, db.macro_files[m.0 as int].call_file);
        },
    }
}

proof fn lemma_container_to_def_valid(db: Database, n: InFile<u32>)
    requires
        db.wf(),
        s_valid_node(db, n),
    ensures
        match s_container_to_def(db, n) {
            Some(c) => db.valid_container(c),
            None => true,
        },
    decreases db.file_rank(n.file_id), n.value, 7int,
{
    let k = s_kind(db, n);
    if k == SyntaxKind::Module {
        lemma_module_to_def_valid(db, n);
    } else if k.is_item() || k == SyntaxKind::Variant {
        lemma_resolve_valid_inline(db, n, k);
        let ptr = AstPtr { kind: k, raw: n.value };
        assert(s_resolve(db, n.file_id, ptr, KeyKind::Trait) == s_resolve(
            db,
            n.file_id,
            ptr,
            KeyKind::Trait,
        ));
        assert(s_resolve(db, n.file_id, ptr, KeyKind::TraitAlias) == s_resolve(
            db,
            n.file_id,
            ptr,
            KeyKind::TraitAlias,
        ));
        assert(s_resolve(db, n.file_id, ptr, KeyKind::Impl) == s_resolve(
            db,
            n.file_id,
            ptr,
            KeyKind::Impl,
        ));
        assert(s_resolve(db, n.file_id, ptr, KeyKind::Enum) == s_resolve(
            db,
            n.file_id,
            ptr,
            KeyKind::Enum,
        ));
        assert(s_resolve(db, n.file_id, ptr, KeyKind::TypeAlias) == s_resolve(
            db,
            n.file_id,
            ptr,
            KeyKind::TypeAlias,
        ));
        assert(s_resolve(db, n.file_id, ptr, KeyKind::Struct) == s_resolve(
            db,
            n.file_id,
            ptr,
            KeyKind::Struct,
        ));
        assert(s_resolve(db, n.file_id, ptr, KeyKind::Union) == s_resolve(
            db,
            n.file_id,
            ptr,
            KeyKind::Union,
        ));
        assert(s_resolve(db, n.file_id, ptr, KeyKind::Function) == s_resolve(
            db,
            n.file_id,
            ptr,
            KeyKind::Function,
        ));
        assert(s_resolve(db, n.file_id, ptr, KeyKind::Static) == s_resolve(
            db,
            n.file_id,
            ptr,
            KeyKind::Static,
        ));
        assert(s_resolve(db, n.file_id, ptr, KeyKind::Const) == s_resolve(
            db,
            n.file_id,
            ptr,
            KeyKind::Const,
        ));
        assert(s_resolve(db, n.file_id, ptr, KeyKind::EnumVariant) == s_resolve(
            db,
            n.file_id,
            ptr,
            KeyKind::EnumVariant,
        ));
    }
}

proof fn lemma_resolve_valid_inline(db: Database, n: InFile<u32>, k: SyntaxKind)
    requires
        db.wf(),
        s_valid_node(db, n),
    ensures
        forall|key: KeyKind| match #[trigger] s_resolve(
            db,
            n.file_id,
            AstPtr { kind: k, raw: n.value },
            key,
        ) {
            Some(v) => crate::child_by_source::s_def_value_valid(db, v),
            None => true,
        },
    decreases db.file_rank(n.file_id), n.value, 4int,
{
    let ptr = AstPtr { kind: k, raw: n.value };
    assert forall|key: KeyKind| match #[trigger] s_resolve(db, n.file_id, ptr, key) {
        Some(v) => crate::child_by_source::s_def_value_valid(db, v),
        None => true,
    } by {
        match s_find_container(db, n) {
            None => {},
            Some(c) => {
                lemma_find_container_valid_bounded(db, n);
                crate::child_by_source::lemma_children_valid(db, c, n.file_id, key, ptr);
            },
        }
    }
}

proof fn lemma_find_container_valid_bounded(db: Database, n: InFile<u32>)
    requires
        db.wf(),
        s_valid_node(db, n),
    ensures
        match s_find_container(db, n) {
            Some(c) => db.valid_container(c),
            None => true,
        },
    decreases db.file_rank(n.file_id), n.value, 3int,
{
    lemma_container_walk_valid_bounded(db, n);
    match s_container_walk(db, n) {
        Some(_) => {},
        None => {
            let orig = s_original_file(db, n.file_id);
            lemma_original_file_valid(db, n.file_id);
            lemma_file_modules_valid(db, orig, db.relevant_crates[orig.0 as int].len() as int);
        },
    }
}

proof fn lemma_container_walk_valid_bounded(db: Database, n: InFile<u32>)
    requires
        db.wf(),
        s_valid_node(db, n),
    ensures
        match s_container_walk(db, n) {
            Some(c) => db.valid_container(c),
            None => true,
        },
    decreases db.file_rank(n.file_id), n.value, 2int,
{
    lemma_parent_ancestor_smaller(db, n);
    match s_parent_ancestor(db, n) {
        None => {},
        Some(a) => {
            lemma_container_to_def_valid(db, a);
            match s_container_to_def(db, a) {
                Some(_) => {},
                None => {
                    lemma_container_walk_valid_bounded(db, a);
                },
            }
        },
    }
}

proof fn lemma_module_to_def_valid(db: Database, n: InFile<u32>)
    requires
        db.wf(),
        s_valid_node(db, n),
    ensures
        match s_module_to_def(db, n) {
            Some(m) => db.valid_module(m),
            None => true,
        },
    decreases db.file_rank(n.file_id), n.value, 6int,
{
    lemma_module_walk_smaller(db, n);
    let parent_module: Option<ModuleId> = match s_module_walk(db, n) {
        Some(a) => {
            if s_kind(db, a) == SyntaxKind::Module {
                lemma_module_to_def_valid(db, a);
                s_module_to_def(db, a)
            } else {
                lemma_resolve_valid_inline(db, a, SyntaxKind::BlockExpr);
                match s_resolve(
                    db,
                    a.file_id,
                    AstPtr { kind: SyntaxKind::BlockExpr, raw: a.value },
                    KeyKind::Block,
                ) {
                    Some(DefValue::Block(b)) => Some(db.blocks[b.0 as int].root_module),
                    _ => None,
                }
            }
        },
        None => {
            let orig = s_original_file(db, n.file_id);
            lemma_original_file_valid(db, n.file_id);
            lemma_file_modules_valid(db, orig, db.relevant_crates[orig.0 as int].len() as int);
            s_first_module_of_file(db, n.file_id)
        },
    };
    match parent_module {
        None => {},
        Some(pm) => {
            assert(db.wf_module(pm.krate, db.module_data(pm)));
            match db.tree(n.file_id).nodes[n.value as int].name {
                None => {},
                Some(nm) => {
                    lemma_child_by_name_valid(db, pm, db.module_data(pm).children@, nm, 0);
                },
            }
        },
    }
}

proof fn lemma_child_by_name_valid(
    db: Database,
    pm: ModuleId,
    children: Seq<(u32, u32)>,
    nm: u32,
    i: int,
)
    requires
        db.wf(),
        db.valid_module(pm),
        children == db.module_data(pm).children@,
        0 <= i,
    ensures
        match s_child_module_by_name_from(children, nm, i) {
            Some(local) => db.valid_module(ModuleId { krate: pm.krate, local_id: local }),
            None => true,
        },
    decreases children.len() - i,
{
    if i < children.len() {
        if children[i].0 == nm {
            assert(db.wf_module(pm.krate, db.module_data(pm)));
            assert(db.module_data(pm).children[i] == children[i]);
        } else {
            lemma_child_by_name_valid(db, pm, children, nm, i + 1);
        }
    }
}

/// Location of the definition that owns a body.
pub fn body_owner_loc_of(db: &Database, d: DefWithBodyId) -> (r: crate::db::ItemLoc)
    requires
        db.valid_body_owner(d),
    ensures
        r == db.body_owner_loc(d),
{
    match d {
        DefWithBodyId::FunctionId(id) => db.functions[id.0 as usize].loc,
        DefWithBodyId::StaticId(id) => db.statics[id.0 as usize].loc,
        DefWithBodyId::ConstId(id) => db.consts[id.0 as usize].loc,
        DefWithBodyId::VariantId(id) => db.enum_variants[id.0 as usize].loc,
    }
}

/// The lowered body of a definition.
pub fn body_of_ref(db: &Database, d: DefWithBodyId) -> (r: &crate::db::BodyData)
    requires
        db.valid_body_owner(d),
    ensures
        *r == db.body_of(d),
{
    match d {
        DefWithBodyId::FunctionId(id) => &db.functions[id.0 as usize].body,
        DefWithBodyId::StaticId(id) => &db.statics[id.0 as usize].body,
        DefWithBodyId::ConstId(id) => &db.consts[id.0 as usize].body,
        DefWithBodyId::VariantId(id) => &db.enum_variants[id.0 as usize].body,
    }
}

/// First index of a pointer in a source-pointer list.
#[verifier::loop_isolation(false)]
fn find_ptr_index(ptrs: &Vec<AstPtr>, p: AstPtr) -> (r: Option<u32>)
    requires
        ptrs.len() <= u32::MAX,
    ensures
        r == match s_ptr_index_of(ptrs@, p) {
            Some(i) => Some(i as u32),
            None => None::<u32>,
        },
{
    let mut i: usize = 0;
    while i < ptrs.len()
        invariant
            0 <= i <= ptrs.len(),
            s_ptr_index_of(ptrs@, p) == s_ptr_index_from(ptrs@, p, i as int),
        decreases ptrs.len() - i,
    {
        if ptrs[i] == p {
            return Some(i as u32);
        }
        i += 1;
    }
    None
}

} // verus!
