//! The semantics-to-syntax direction for item definitions.
//!
//! Every interned item definition records its defining file and structural
//! pointer; `HasSource` recovers them, optionally memoizing the pointer in
//! the session's definition-to-source cache.  One registry function serves
//! every kind through its key descriptor, so each kind's implementation
//! only names its descriptor.

use vstd::prelude::*;
use crate::db::{Database, ItemId, ItemLoc};
use crate::child_by_source::{db_tree, item_loc_of, s_item_key, s_item_value};
use crate::dyn_map::{DefIdPolicy, DefValue, KeyKind};
use crate::ids::{
    ConstId, EnumId, EnumVariantId, ExternBlockId, ExternCrateId, FunctionId, ImplId, Macro2Id,
    MacroRulesId, ProcMacroId, StaticId, StructId, TraitAliasId, TraitId, TypeAliasId, UnionId,
    UseId,
};
use crate::src_def_cache::{DefToSrcCacheContext, SrcDefCacheContext};
use crate::syntax::{AstPtr, InFile};

verus! {

/// The defining pointer of a stored definition value under its key
/// descriptor, as the item data records it.
pub open spec fn s_def_ptr(db: Database, key: KeyKind, def: DefValue) -> Option<AstPtr> {
    match def {
        DefValue::Struct(id) => if key == KeyKind::Struct && id.0 < db.structs.len() {
            Some(db.structs[id.0 as int].loc.ptr)
        } else {
            None
        },
        DefValue::Union(id) => if key == KeyKind::Union && id.0 < db.unions.len() {
            Some(db.unions[id.0 as int].loc.ptr)
        } else {
            None
        },
        DefValue::Enum(id) => if key == KeyKind::Enum && id.0 < db.enums.len() {
            Some(db.enums[id.0 as int].loc.ptr)
        } else {
            None
        },
        DefValue::EnumVariant(id) => if key == KeyKind::EnumVariant && id.0
            < db.enum_variants.len() {
            Some(db.enum_variants[id.0 as int].loc.ptr)
        } else {
            None
        },
        DefValue::Function(id) => if key == KeyKind::Function && id.0 < db.functions.len() {
            Some(db.functions[id.0 as int].loc.ptr)
        } else {
            None
        },
        DefValue::Const(id) => if key == KeyKind::Const && id.0 < db.consts.len() {
            Some(db.consts[id.0 as int].loc.ptr)
        } else {
            None
        },
        DefValue::Static(id) => if key == KeyKind::Static && id.0 < db.statics.len() {
            Some(db.statics[id.0 as int].loc.ptr)
        } else {
            None
        },
        DefValue::Trait(id) => if key == KeyKind::Trait && id.0 < db.traits.len() {
            Some(db.traits[id.0 as int].loc.ptr)
        } else {
            None
        },
        DefValue::TraitAlias(id) => if key == KeyKind::TraitAlias && id.0
            < db.trait_aliases.len() {
            Some(db.trait_aliases[id.0 as int].loc.ptr)
        } else {
            None
        },
        DefValue::TypeAlias(id) => if key == KeyKind::TypeAlias && id.0 < db.type_aliases.len() {
            Some(db.type_aliases[id.0 as int].loc.ptr)
        } else {
            None
        },
        DefValue::Macro2(id) => if key == KeyKind::Macro2 && id.0 < db.macro2s.len() {
            Some(db.macro2s[id.0 as int].loc.ptr)
        } else {
            None
        },
        DefValue::MacroRules(id) => if key == KeyKind::MacroRules && id.0
            < db.macro_rules_defs.len() {
            Some(db.macro_rules_defs[id.0 as int].loc.ptr)
        } else {
            None
        },
        DefValue::ProcMacro(id) => if key == KeyKind::ProcMacro && id.0 < db.proc_macros.len() {
            Some(db.proc_macros[id.0 as int].loc.ptr)
        } else {
            None
        },
        DefValue::Impl(id) => if key == KeyKind::Impl && id.0 < db.impls.len() {
            Some(db.impls[id.0 as int].loc.ptr)
        } else {
            None
        },
        DefValue::ExternCrate(id) => if key == KeyKind::ExternCrate && id.0
            < db.extern_crates.len() {
            Some(db.extern_crates[id.0 as int].loc.ptr)
        } else {
            None
        },
        DefValue::ExternBlock(id) => if key == KeyKind::ExternBlock && id.0
            < db.extern_blocks.len() {
            Some(db.extern_blocks[id.0 as int].loc.ptr)
        } else {
            None
        },
        DefValue::Use(id) => if key == KeyKind::Use && id.0 < db.uses.len() {
            Some(db.uses[id.0 as int].loc.ptr)
        } else {
            None
        },
        _ => None,
    }
}

/// The definition-to-source cache only holds pointers the item data
/// records.
pub open spec fn d2s_inv(db: Database, ctx: DefToSrcCacheContext) -> bool {
    &&& ctx.c_wf()
    &&& forall|key: KeyKind, def: DefValue| match #[trigger] ctx.c_view(key, def) {
        Some(p) => s_def_ptr(db, key, def) == Some(p),
        None => true,
    }
}

/// A definition whose source can be recovered from the item data.
pub trait HasSource: Sized + Copy {
    /// Whether the database holds this definition.
    spec fn h_valid(self, db: Database) -> bool;

    /// The recorded defining location.
    spec fn h_loc(self, db: Database) -> ItemLoc;

    /// The defining file and structural pointer.
    fn ast_ptr(self, db: &Database) -> (r: InFile<AstPtr>)
        requires
            db.wf(),
            self.h_valid(*db),
        ensures
            r.file_id == self.h_loc(*db).file_id,
            r.value == self.h_loc(*db).ptr,
    ;

    /// The defining node, re-resolved in the defining file's tree.
    fn source(self, db: &Database) -> (r: InFile<u32>)
        requires
            db.wf(),
            self.h_valid(*db),
        ensures
            r.file_id == self.h_loc(*db).file_id,
            r.value == self.h_loc(*db).ptr.raw,
            AstPtr::spec_new(db.tree(r.file_id), r.value) == self.h_loc(*db).ptr,
    ;

    /// The defining pointer, memoized in the session cache.
    fn ast_ptr_with(self, db: &Database, ctx: &mut DefToSrcCacheContext) -> (r: InFile<AstPtr>)
        requires
            db.wf(),
            self.h_valid(*db),
            d2s_inv(*db, *old(ctx)),
        ensures
            d2s_inv(*db, *final(ctx)),
            r.file_id == self.h_loc(*db).file_id,
            r.value == self.h_loc(*db).ptr,
    ;

    /// The defining node, with the pointer lookup memoized.
    fn source_with_ctx(self, db: &Database, ctx: &mut DefToSrcCacheContext) -> (r: InFile<u32>)
        requires
            db.wf(),
            self.h_valid(*db),
            d2s_inv(*db, *old(ctx)),
        ensures
            d2s_inv(*db, *final(ctx)),
            r.file_id == self.h_loc(*db).file_id,
            r.value == self.h_loc(*db).ptr.raw,
            AstPtr::spec_new(db.tree(r.file_id), r.value) == self.h_loc(*db).ptr,
    ;
}

/// The registry: the defining location of any scope item kind.
pub fn item_ast_ptr(db: &Database, item: ItemId) -> (r: InFile<AstPtr>)
    requires
        db.wf(),
        db.valid_item(item),
    ensures
        r.file_id == db.item_loc(item).file_id,
        r.value == db.item_loc(item).ptr,
{
    let loc = item_loc_of(db, item);
    InFile { file_id: loc.file_id, value: loc.ptr }
}

/// The registry: the defining node of any scope item kind.
pub fn item_source(db: &Database, item: ItemId) -> (r: InFile<u32>)
    requires
        db.wf(),
        db.valid_item(item),
    ensures
        r.file_id == db.item_loc(item).file_id,
        r.value == db.item_loc(item).ptr.raw,
        AstPtr::spec_new(db.tree(r.file_id), r.value) == db.item_loc(item).ptr,
{
    let loc = item_loc_of(db, item);
    proof {
        assert(db.valid_loc(db.item_loc(item)));
    }
    InFile { file_id: loc.file_id, value: loc.ptr.raw }
}

/// The registry: the cached defining pointer of any scope item kind.
pub fn item_ast_ptr_with(db: &Database, ctx: &mut DefToSrcCacheContext, item: ItemId) -> (r: InFile<
    AstPtr,
>)
    requires
        db.wf(),
        db.valid_item(item),
        d2s_inv(*db, *old(ctx)),
    ensures
        d2s_inv(*db, *final(ctx)),
        r.file_id == db.item_loc(item).file_id,
        r.value == db.item_loc(item).ptr,
{
    let loc = item_loc_of(db, item);
    proof {
        assert(s_def_ptr(*db, s_item_key(item), s_item_value(item)) == Some(loc.ptr));
    }
    let p = ctx.get_or_inset_with(
        DefIdPolicy { key: crate::child_by_source::item_key_pub(item) },
        crate::child_by_source::item_value_pub(item),
        loc.ptr,
    );
    InFile { file_id: loc.file_id, value: p }
}


impl HasSource for StructId {
    open spec fn h_valid(self, db: Database) -> bool {
        self.0 < db.structs.len()
    }

    open spec fn h_loc(self, db: Database) -> ItemLoc {
        db.structs[self.0 as int].loc
    }

    fn ast_ptr(self, db: &Database) -> (r: InFile<AstPtr>) {
        item_ast_ptr(db, ItemId::StructId(self))
    }

    fn source(self, db: &Database) -> (r: InFile<u32>) {
        item_source(db, ItemId::StructId(self))
    }

    fn ast_ptr_with(self, db: &Database, ctx: &mut DefToSrcCacheContext) -> (r: InFile<AstPtr>) {
        item_ast_ptr_with(db, ctx, ItemId::StructId(self))
    }

    fn source_with_ctx(self, db: &Database, ctx: &mut DefToSrcCacheContext) -> (r: InFile<u32>) {
        let p = item_ast_ptr_with(db, ctx, ItemId::StructId(self));
        proof {
            assert(db.valid_loc(db.item_loc(ItemId::StructId(self))));
        }
        InFile { file_id: p.file_id, value: p.value.raw }
    }
}


impl HasSource for UnionId {
    open spec fn h_valid(self, db: Database) -> bool {
        self.0 < db.unions.len()
    }

    open spec fn h_loc(self, db: Database) -> ItemLoc {
        db.unions[self.0 as int].loc
    }

    fn ast_ptr(self, db: &Database) -> (r: InFile<AstPtr>) {
        item_ast_ptr(db, ItemId::UnionId(self))
    }

    fn source(self, db: &Database) -> (r: InFile<u32>) {
        item_source(db, ItemId::UnionId(self))
    }

    fn ast_ptr_with(self, db: &Database, ctx: &mut DefToSrcCacheContext) -> (r: InFile<AstPtr>) {
        item_ast_ptr_with(db, ctx, ItemId::UnionId(self))
    }

    fn source_with_ctx(self, db: &Database, ctx: &mut DefToSrcCacheContext) -> (r: InFile<u32>) {
        let p = item_ast_ptr_with(db, ctx, ItemId::UnionId(self));
        proof {
            assert(db.valid_loc(db.item_loc(ItemId::UnionId(self))));
        }
        InFile { file_id: p.file_id, value: p.value.raw }
    }
}


impl HasSource for EnumId {
    open spec fn h_valid(self, db: Database) -> bool {
        self.0 < db.enums.len()
    }

    open spec fn h_loc(self, db: Database) -> ItemLoc {
        db.enums[self.0 as int].loc
    }

    fn ast_ptr(self, db: &Database) -> (r: InFile<AstPtr>) {
        item_ast_ptr(db, ItemId::EnumId(self))
    }

    fn source(self, db: &Database) -> (r: InFile<u32>) {
        item_source(db, ItemId::EnumId(self))
    }

    fn ast_ptr_with(self, db: &Database, ctx: &mut DefToSrcCacheContext) -> (r: InFile<AstPtr>) {
        item_ast_ptr_with(db, ctx, ItemId::EnumId(self))
    }

    fn source_with_ctx(self, db: &Database, ctx: &mut DefToSrcCacheContext) -> (r: InFile<u32>) {
        let p = item_ast_ptr_with(db, ctx, ItemId::EnumId(self));
        proof {
            assert(db.valid_loc(db.item_loc(ItemId::EnumId(self))));
        }
        InFile { file_id: p.file_id, value: p.value.raw }
    }
}


impl HasSource for FunctionId {
    open spec fn h_valid(self, db: Database) -> bool {
        self.0 < db.functions.len()
    }

    open spec fn h_loc(self, db: Database) -> ItemLoc {
        db.functions[self.0 as int].loc
    }

    fn ast_ptr(self, db: &Database) -> (r: InFile<AstPtr>) {
        item_ast_ptr(db, ItemId::FunctionId(self))
    }

    fn source(self, db: &Database) -> (r: InFile<u32>) {
        item_source(db, ItemId::FunctionId(self))
    }

    fn ast_ptr_with(self, db: &Database, ctx: &mut DefToSrcCacheContext) -> (r: InFile<AstPtr>) {
        item_ast_ptr_with(db, ctx, ItemId::FunctionId(self))
    }

    fn source_with_ctx(self, db: &Database, ctx: &mut DefToSrcCacheContext) -> (r: InFile<u32>) {
        let p = item_ast_ptr_with(db, ctx, ItemId::FunctionId(self));
        proof {
            assert(db.valid_loc(db.item_loc(ItemId::FunctionId(self))));
        }
        InFile { file_id: p.file_id, value: p.value.raw }
    }
}


impl HasSource for ConstId {
    open spec fn h_valid(self, db: Database) -> bool {
        self.0 < db.consts.len()
    }

    open spec fn h_loc(self, db: Database) -> ItemLoc {
        db.consts[self.0 as int].loc
    }

    fn ast_ptr(self, db: &Database) -> (r: InFile<AstPtr>) {
        item_ast_ptr(db, ItemId::ConstId(self))
    }

    fn source(self, db: &Database) -> (r: InFile<u32>) {
        item_source(db, ItemId::ConstId(self))
    }

    fn ast_ptr_with(self, db: &Database, ctx: &mut DefToSrcCacheContext) -> (r: InFile<AstPtr>) {
        item_ast_ptr_with(db, ctx, ItemId::ConstId(self))
    }

    fn source_with_ctx(self, db: &Database, ctx: &mut DefToSrcCacheContext) -> (r: InFile<u32>) {
        let p = item_ast_ptr_with(db, ctx, ItemId::ConstId(self));
        proof {
            assert(db.valid_loc(db.item_loc(ItemId::ConstId(self))));
        }
        InFile { file_id: p.file_id, value: p.value.raw }
    }
}


impl HasSource for StaticId {
    open spec fn h_valid(self, db: Database) -> bool {
        self.0 < db.statics.len()
    }

    open spec fn h_loc(self, db: Database) -> ItemLoc {
        db.statics[self.0 as int].loc
    }

    fn ast_ptr(self, db: &Database) -> (r: InFile<AstPtr>) {
        item_ast_ptr(db, ItemId::StaticId(self))
    }

    fn source(self, db: &Database) -> (r: InFile<u32>) {
        item_source(db, ItemId::StaticId(self))
    }

    fn ast_ptr_with(self, db: &Database, ctx: &mut DefToSrcCacheContext) -> (r: InFile<AstPtr>) {
        item_ast_ptr_with(db, ctx, ItemId::StaticId(self))
    }

    fn source_with_ctx(self, db: &Database, ctx: &mut DefToSrcCacheContext) -> (r: InFile<u32>) {
        let p = item_ast_ptr_with(db, ctx, ItemId::StaticId(self));
        proof {
            assert(db.valid_loc(db.item_loc(ItemId::StaticId(self))));
        }
        InFile { file_id: p.file_id, value: p.value.raw }
    }
}


impl HasSource for TraitId {
    open spec fn h_valid(self, db: Database) -> bool {
        self.0 < db.traits.len()
    }

    open spec fn h_loc(self, db: Database) -> ItemLoc {
        db.traits[self.0 as int].loc
    }

    fn ast_ptr(self, db: &Database) -> (r: InFile<AstPtr>) {
        item_ast_ptr(db, ItemId::TraitId(self))
    }

    fn source(self, db: &Database) -> (r: InFile<u32>) {
        item_source(db, ItemId::TraitId(self))
    }

    fn ast_ptr_with(self, db: &Database, ctx: &mut DefToSrcCacheContext) -> (r: InFile<AstPtr>) {
        item_ast_ptr_with(db, ctx, ItemId::TraitId(self))
    }

    fn source_with_ctx(self, db: &Database, ctx: &mut DefToSrcCacheContext) -> (r: InFile<u32>) {
        let p = item_ast_ptr_with(db, ctx, ItemId::TraitId(self));
        proof {
            assert(db.valid_loc(db.item_loc(ItemId::TraitId(self))));
        }
        InFile { file_id: p.file_id, value: p.value.raw }
    }
}


impl HasSource for TraitAliasId {
    open spec fn h_valid(self, db: Database) -> bool {
        self.0 < db.trait_aliases.len()
    }

    open spec fn h_loc(self, db: Database) -> ItemLoc {
        db.trait_aliases[self.0 as int].loc
    }

    fn ast_ptr(self, db: &Database) -> (r: InFile<AstPtr>) {
        item_ast_ptr(db, ItemId::TraitAliasId(self))
    }

    fn source(self, db: &Database) -> (r: InFile<u32>) {
        item_source(db, ItemId::TraitAliasId(self))
    }

    fn ast_ptr_with(self, db: &Database, ctx: &mut DefToSrcCacheContext) -> (r: InFile<AstPtr>) {
        item_ast_ptr_with(db, ctx, ItemId::TraitAliasId(self))
    }

    fn source_with_ctx(self, db: &Database, ctx: &mut DefToSrcCacheContext) -> (r: InFile<u32>) {
        let p = item_ast_ptr_with(db, ctx, ItemId::TraitAliasId(self));
        proof {
            assert(db.valid_loc(db.item_loc(ItemId::TraitAliasId(self))));
        }
        InFile { file_id: p.file_id, value: p.value.raw }
    }
}


impl HasSource for TypeAliasId {
    open spec fn h_valid(self, db: Database) -> bool {
        self.0 < db.type_aliases.len()
    }

    open spec fn h_loc(self, db: Database) -> ItemLoc {
        db.type_aliases[self.0 as int].loc
    }

    fn ast_ptr(self, db: &Database) -> (r: InFile<AstPtr>) {
        item_ast_ptr(db, ItemId::TypeAliasId(self))
    }

    fn source(self, db: &Database) -> (r: InFile<u32>) {
        item_source(db, ItemId::TypeAliasId(self))
    }

    fn ast_ptr_with(self, db: &Database, ctx: &mut DefToSrcCacheContext) -> (r: InFile<AstPtr>) {
        item_ast_ptr_with(db, ctx, ItemId::TypeAliasId(self))
    }

    fn source_with_ctx(self, db: &Database, ctx: &mut DefToSrcCacheContext) -> (r: InFile<u32>) {
        let p = item_ast_ptr_with(db, ctx, ItemId::TypeAliasId(self));
        proof {
            assert(db.valid_loc(db.item_loc(ItemId::TypeAliasId(self))));
        }
        InFile { file_id: p.file_id, value: p.value.raw }
    }
}


impl HasSource for Macro2Id {
    open spec fn h_valid(self, db: Database) -> bool {
        self.0 < db.macro2s.len()
    }

    open spec fn h_loc(self, db: Database) -> ItemLoc {
        db.macro2s[self.0 as int].loc
    }

    fn ast_ptr(self, db: &Database) -> (r: InFile<AstPtr>) {
        item_ast_ptr(db, ItemId::Macro2Id(self))
    }

    fn source(self, db: &Database) -> (r: InFile<u32>) {
        item_source(db, ItemId::Macro2Id(self))
    }

    fn ast_ptr_with(self, db: &Database, ctx: &mut DefToSrcCacheContext) -> (r: InFile<AstPtr>) {
        item_ast_ptr_with(db, ctx, ItemId::Macro2Id(self))
    }

    fn source_with_ctx(self, db: &Database, ctx: &mut DefToSrcCacheContext) -> (r: InFile<u32>) {
        let p = item_ast_ptr_with(db, ctx, ItemId::Macro2Id(self));
        proof {
            assert(db.valid_loc(db.item_loc(ItemId::Macro2Id(self))));
        }
        InFile { file_id: p.file_id, value: p.value.raw }
    }
}


impl HasSource for MacroRulesId {
    open spec fn h_valid(self, db: Database) -> bool {
        self.0 < db.macro_rules_defs.len()
    }

    open spec fn h_loc(self, db: Database) -> ItemLoc {
        db.macro_rules_defs[self.0 as int].loc
    }

    fn ast_ptr(self, db: &Database) -> (r: InFile<AstPtr>) {
        item_ast_ptr(db, ItemId::MacroRulesId(self))
    }

    fn source(self, db: &Database) -> (r: InFile<u32>) {
        item_source(db, ItemId::MacroRulesId(self))
    }

    fn ast_ptr_with(self, db: &Database, ctx: &mut DefToSrcCacheContext) -> (r: InFile<AstPtr>) {
        item_ast_ptr_with(db, ctx, ItemId::MacroRulesId(self))
    }

    fn source_with_ctx(self, db: &Database, ctx: &mut DefToSrcCacheContext) -> (r: InFile<u32>) {
        let p = item_ast_ptr_with(db, ctx, ItemId::MacroRulesId(self));
        proof {
            assert(db.valid_loc(db.item_loc(ItemId::MacroRulesId(self))));
        }
        InFile { file_id: p.file_id, value: p.value.raw }
    }
}


impl HasSource for ProcMacroId {
    open spec fn h_valid(self, db: Database) -> bool {
        self.0 < db.proc_macros.len()
    }

    open spec fn h_loc(self, db: Database) -> ItemLoc {
        db.proc_macros[self.0 as int].loc
    }

    fn ast_ptr(self, db: &Database) -> (r: InFile<AstPtr>) {
        item_ast_ptr(db, ItemId::ProcMacroId(self))
    }

    fn source(self, db: &Database) -> (r: InFile<u32>) {
        item_source(db, ItemId::ProcMacroId(self))
    }

    fn ast_ptr_with(self, db: &Database, ctx: &mut DefToSrcCacheContext) -> (r: InFile<AstPtr>) {
        item_ast_ptr_with(db, ctx, ItemId::ProcMacroId(self))
    }

    fn source_with_ctx(self, db: &Database, ctx: &mut DefToSrcCacheContext) -> (r: InFile<u32>) {
        let p = item_ast_ptr_with(db, ctx, ItemId::ProcMacroId(self));
        proof {
            assert(db.valid_loc(db.item_loc(ItemId::ProcMacroId(self))));
        }
        InFile { file_id: p.file_id, value: p.value.raw }
    }
}


impl HasSource for ImplId {
    open spec fn h_valid(self, db: Database) -> bool {
        self.0 < db.impls.len()
    }

    open spec fn h_loc(self, db: Database) -> ItemLoc {
        db.impls[self.0 as int].loc
    }

    fn ast_ptr(self, db: &Database) -> (r: InFile<AstPtr>) {
        item_ast_ptr(db, ItemId::ImplId(self))
    }

    fn source(self, db: &Database) -> (r: InFile<u32>) {
        item_source(db, ItemId::ImplId(self))
    }

    fn ast_ptr_with(self, db: &Database, ctx: &mut DefToSrcCacheContext) -> (r: InFile<AstPtr>) {
        item_ast_ptr_with(db, ctx, ItemId::ImplId(self))
    }

    fn source_with_ctx(self, db: &Database, ctx: &mut DefToSrcCacheContext) -> (r: InFile<u32>) {
        let p = item_ast_ptr_with(db, ctx, ItemId::ImplId(self));
        proof {
            assert(db.valid_loc(db.item_loc(ItemId::ImplId(self))));
        }
        InFile { file_id: p.file_id, value: p.value.raw }
    }
}


impl HasSource for ExternCrateId {
    open spec fn h_valid(self, db: Database) -> bool {
        self.0 < db.extern_crates.len()
    }

    open spec fn h_loc(self, db: Database) -> ItemLoc {
        db.extern_crates[self.0 as int].loc
    }

    fn ast_ptr(self, db: &Database) -> (r: InFile<AstPtr>) {
        item_ast_ptr(db, ItemId::ExternCrateId(self))
    }

    fn source(self, db: &Database) -> (r: InFile<u32>) {
        item_source(db, ItemId::ExternCrateId(self))
    }

    fn ast_ptr_with(self, db: &Database, ctx: &mut DefToSrcCacheContext) -> (r: InFile<AstPtr>) {
        item_ast_ptr_with(db, ctx, ItemId::ExternCrateId(self))
    }

    fn source_with_ctx(self, db: &Database, ctx: &mut DefToSrcCacheContext) -> (r: InFile<u32>) {
        let p = item_ast_ptr_with(db, ctx, ItemId::ExternCrateId(self));
        proof {
            assert(db.valid_loc(db.item_loc(ItemId::ExternCrateId(self))));
        }
        InFile { file_id: p.file_id, value: p.value.raw }
    }
}


impl HasSource for ExternBlockId {
    open spec fn h_valid(self, db: Database) -> bool {
        self.0 < db.extern_blocks.len()
    }

    open spec fn h_loc(self, db: Database) -> ItemLoc {
        db.extern_blocks[self.0 as int].loc
    }

    fn ast_ptr(self, db: &Database) -> (r: InFile<AstPtr>) {
        item_ast_ptr(db, ItemId::ExternBlockId(self))
    }

    fn source(self, db: &Database) -> (r: InFile<u32>) {
        item_source(db, ItemId::ExternBlockId(self))
    }

    fn ast_ptr_with(self, db: &Database, ctx: &mut DefToSrcCacheContext) -> (r: InFile<AstPtr>) {
        item_ast_ptr_with(db, ctx, ItemId::ExternBlockId(self))
    }

    fn source_with_ctx(self, db: &Database, ctx: &mut DefToSrcCacheContext) -> (r: InFile<u32>) {
        let p = item_ast_ptr_with(db, ctx, ItemId::ExternBlockId(self));
        proof {
            assert(db.valid_loc(db.item_loc(ItemId::ExternBlockId(self))));
        }
        InFile { file_id: p.file_id, value: p.value.raw }
    }
}


impl HasSource for UseId {
    open spec fn h_valid(self, db: Database) -> bool {
        self.0 < db.uses.len()
    }

    open spec fn h_loc(self, db: Database) -> ItemLoc {
        db.uses[self.0 as int].loc
    }

    fn ast_ptr(self, db: &Database) -> (r: InFile<AstPtr>) {
        item_ast_ptr(db, ItemId::UseId(self))
    }

    fn source(self, db: &Database) -> (r: InFile<u32>) {
        item_source(db, ItemId::UseId(self))
    }

    fn ast_ptr_with(self, db: &Database, ctx: &mut DefToSrcCacheContext) -> (r: InFile<AstPtr>) {
        item_ast_ptr_with(db, ctx, ItemId::UseId(self))
    }

    fn source_with_ctx(self, db: &Database, ctx: &mut DefToSrcCacheContext) -> (r: InFile<u32>) {
        let p = item_ast_ptr_with(db, ctx, ItemId::UseId(self));
        proof {
            assert(db.valid_loc(db.item_loc(ItemId::UseId(self))));
        }
        InFile { file_id: p.file_id, value: p.value.raw }
    }
}


impl HasSource for EnumVariantId {
    open spec fn h_valid(self, db: Database) -> bool {
        self.0 < db.enum_variants.len()
    }

    open spec fn h_loc(self, db: Database) -> ItemLoc {
        db.enum_variants[self.0 as int].loc
    }

    fn ast_ptr(self, db: &Database) -> (r: InFile<AstPtr>) {
        let loc = db.enum_variants[self.0 as usize].loc;
        InFile { file_id: loc.file_id, value: loc.ptr }
    }

    fn source(self, db: &Database) -> (r: InFile<u32>) {
        let loc = db.enum_variants[self.0 as usize].loc;
        proof {
            assert(db.valid_loc(db.enum_variants[self.0 as int].loc));
        }
        InFile { file_id: loc.file_id, value: loc.ptr.raw }
    }

    fn ast_ptr_with(self, db: &Database, ctx: &mut DefToSrcCacheContext) -> (r: InFile<AstPtr>) {
        let loc = db.enum_variants[self.0 as usize].loc;
        proof {
            assert(s_def_ptr(*db, KeyKind::EnumVariant, DefValue::EnumVariant(self)) == Some(
                loc.ptr,
            ));
        }
        let p = ctx.get_or_inset_with(
            DefIdPolicy { key: KeyKind::EnumVariant },
            DefValue::EnumVariant(self),
            loc.ptr,
        );
        InFile { file_id: loc.file_id, value: p }
    }

    fn source_with_ctx(self, db: &Database, ctx: &mut DefToSrcCacheContext) -> (r: InFile<u32>) {
        let p = self.ast_ptr_with(db, ctx);
        proof {
            assert(db.valid_loc(db.enum_variants[self.0 as int].loc));
        }
        InFile { file_id: p.file_id, value: p.value.raw }
    }
}

} // verus!
