//! The Child Enumerator.
//!
//! Given a semantic container and a file, enumerate the container's
//! immediate semantic children together with their defining syntax pointers,
//! as one freshly built Identity Map: a module's children are its scope
//! items and macro invocations; a trait's or impl's are its associated
//! items; an enum's are its variants; a variant's are its fields; a generic
//! definition's are its generic parameters (with the implicit trait `Self`
//! first); a body's are its item-declaring block scopes and their contents.
//!
//! Enumeration is pure: it only reads the database.  Each spec function
//! below gives the resulting association pointwise, later insertions
//! shadowing earlier ones.

use vstd::prelude::*;
use crate::ids::{
    AdtId, BlockId, ChildContainer, DefWithBodyId, EnumVariantId, FieldId, GenericDefId,
    HirFileId, LifetimeParamId, ModuleId, TypeOrConstParamId, VariantId,
};
use crate::db::{AssocItemId, Database, ItemId};
use crate::dyn_map::{DefValue, DynMap, KeyKind};
use crate::syntax::{
    child_nodes, child_nodes2, collect_child_nodes, collect_child_nodes2, find_first_child,
    first_child, AstPtr, SyntaxKind, SyntaxTree,
};

verus! {

/// The later of two associations, the earlier standing where the later says
/// nothing.
pub open spec fn over(a: Option<DefValue>, b: Option<DefValue>) -> Option<DefValue> {
    if a is Some {
        a
    } else {
        b
    }
}

/// The Identity Map key under which an item of a module scope is stored.
pub open spec fn s_item_key(item: ItemId) -> KeyKind {
    match item {
        ItemId::StructId(_) => KeyKind::Struct,
        ItemId::UnionId(_) => KeyKind::Union,
        ItemId::EnumId(_) => KeyKind::Enum,
        ItemId::FunctionId(_) => KeyKind::Function,
        ItemId::ConstId(_) => KeyKind::Const,
        ItemId::StaticId(_) => KeyKind::Static,
        ItemId::TraitId(_) => KeyKind::Trait,
        ItemId::TraitAliasId(_) => KeyKind::TraitAlias,
        ItemId::TypeAliasId(_) => KeyKind::TypeAlias,
        ItemId::ImplId(_) => KeyKind::Impl,
        ItemId::ExternCrateId(_) => KeyKind::ExternCrate,
        ItemId::ExternBlockId(_) => KeyKind::ExternBlock,
        ItemId::UseId(_) => KeyKind::Use,
        ItemId::Macro2Id(_) => KeyKind::Macro2,
        ItemId::MacroRulesId(_) => KeyKind::MacroRules,
        ItemId::ProcMacroId(_) => KeyKind::ProcMacro,
    }
}

/// The stored value of a scope item.
pub open spec fn s_item_value(item: ItemId) -> DefValue {
    match item {
        ItemId::StructId(id) => DefValue::Struct(id),
        ItemId::UnionId(id) => DefValue::Union(id),
        ItemId::EnumId(id) => DefValue::Enum(id),
        ItemId::FunctionId(id) => DefValue::Function(id),
        ItemId::ConstId(id) => DefValue::Const(id),
        ItemId::StaticId(id) => DefValue::Static(id),
        ItemId::TraitId(id) => DefValue::Trait(id),
        ItemId::TraitAliasId(id) => DefValue::TraitAlias(id),
        ItemId::TypeAliasId(id) => DefValue::TypeAlias(id),
        ItemId::ImplId(id) => DefValue::Impl(id),
        ItemId::ExternCrateId(id) => DefValue::ExternCrate(id),
        ItemId::ExternBlockId(id) => DefValue::ExternBlock(id),
        ItemId::UseId(id) => DefValue::Use(id),
        ItemId::Macro2Id(id) => DefValue::Macro2(id),
        ItemId::MacroRulesId(id) => DefValue::MacroRules(id),
        ItemId::ProcMacroId(id) => DefValue::ProcMacro(id),
    }
}

/// Scope items of a module that are defined in the queried file.
pub open spec fn s_scope_get(
    db: Database,
    items: Seq<ItemId>,
    file: HirFileId,
    key: KeyKind,
    ptr: AstPtr,
) -> Option<DefValue>
    decreases items.len(),
{
    if items.len() == 0 {
        None
    } else {
        let item = items.last();
        if db.item_loc(item).file_id == file && key == s_item_key(item) && ptr == db.item_loc(
            item,
        ).ptr {
            Some(s_item_value(item))
        } else {
            s_scope_get(db, items.drop_last(), file, key, ptr)
        }
    }
}

/// Macro calls of a module expanded in the queried file.
pub open spec fn s_macro_calls_get(
    entries: Seq<(crate::syntax::InFile<AstPtr>, crate::ids::MacroCallId)>,
    file: HirFileId,
    key: KeyKind,
    ptr: AstPtr,
) -> Option<DefValue>
    decreases entries.len(),
{
    if entries.len() == 0 {
        None
    } else {
        let e = entries.last();
        if e.0.file_id == file && key == KeyKind::MacroCall && ptr == e.0.value {
            Some(DefValue::MacroCall(e.1))
        } else {
            s_macro_calls_get(entries.drop_last(), file, key, ptr)
        }
    }
}

/// Items of a module whose attribute macro was expanded, keyed by the item's
/// own pointer.
pub open spec fn s_attr_calls_get(
    entries: Seq<(crate::syntax::InFile<AstPtr>, crate::ids::MacroCallId)>,
    file: HirFileId,
    key: KeyKind,
    ptr: AstPtr,
) -> Option<DefValue>
    decreases entries.len(),
{
    if entries.len() == 0 {
        None
    } else {
        let e = entries.last();
        if e.0.file_id == file && key == KeyKind::AttrMacroCall && ptr == e.0.value {
            Some(DefValue::MacroCall(e.1))
        } else {
            s_attr_calls_get(entries.drop_last(), file, key, ptr)
        }
    }
}

/// Derive attributes of a module, keyed by the attribute's pointer.
pub open spec fn s_derive_calls_get(
    db: Database,
    entries: Seq<(crate::syntax::InFile<AstPtr>, crate::ids::DeriveId)>,
    file: HirFileId,
    key: KeyKind,
    ptr: AstPtr,
) -> Option<DefValue>
    decreases entries.len(),
{
    if entries.len() == 0 {
        None
    } else {
        let e = entries.last();
        if e.0.file_id == file && key == KeyKind::DeriveMacroCall && ptr == e.0.value {
            let dd = db.derive_defs[e.1.0 as int];
            Some(DefValue::Derive(dd.attr_id, dd.call, e.1))
        } else {
            s_derive_calls_get(db, entries.drop_last(), file, key, ptr)
        }
    }
}

/// All children of a module: scope items, then macro calls, then attribute
/// calls, then derive attributes.
pub open spec fn s_module_children_get(
    db: Database,
    m: ModuleId,
    file: HirFileId,
    key: KeyKind,
    ptr: AstPtr,
) -> Option<DefValue> {
    let md = db.module_data(m);
    over(
        s_derive_calls_get(db, md.derive_calls@, file, key, ptr),
        over(
            s_attr_calls_get(md.attr_calls@, file, key, ptr),
            over(
                s_macro_calls_get(md.macro_calls@, file, key, ptr),
                s_scope_get(db, md.scope@, file, key, ptr),
            ),
        ),
    )
}

/// Associated items of a trait or impl defined in the queried file.
pub open spec fn s_assoc_items_get(
    db: Database,
    items: Seq<AssocItemId>,
    file: HirFileId,
    key: KeyKind,
    ptr: AstPtr,
) -> Option<DefValue>
    decreases items.len(),
{
    if items.len() == 0 {
        None
    } else {
        let hit = match items.last() {
            AssocItemId::FunctionId(id) => {
                let loc = db.functions[id.0 as int].loc;
                if loc.file_id == file && key == KeyKind::Function && ptr == loc.ptr {
                    Some(DefValue::Function(id))
                } else {
                    None
                }
            },
            AssocItemId::ConstId(id) => {
                let loc = db.consts[id.0 as int].loc;
                if loc.file_id == file && key == KeyKind::Const && ptr == loc.ptr {
                    Some(DefValue::Const(id))
                } else {
                    None
                }
            },
            AssocItemId::TypeAliasId(id) => {
                let loc = db.type_aliases[id.0 as int].loc;
                if loc.file_id == file && key == KeyKind::TypeAlias && ptr == loc.ptr {
                    Some(DefValue::TypeAlias(id))
                } else {
                    None
                }
            },
        };
        over(hit, s_assoc_items_get(db, items.drop_last(), file, key, ptr))
    }
}

/// Variants of an enum defined in the queried file.
pub open spec fn s_variants_get(
    db: Database,
    variants: Seq<EnumVariantId>,
    file: HirFileId,
    key: KeyKind,
    ptr: AstPtr,
) -> Option<DefValue>
    decreases variants.len(),
{
    if variants.len() == 0 {
        None
    } else {
        let v = variants.last();
        let loc = db.enum_variants[v.0 as int].loc;
        if loc.file_id == file && key == KeyKind::EnumVariant && ptr == loc.ptr {
            Some(DefValue::EnumVariant(v))
        } else {
            s_variants_get(db, variants.drop_last(), file, key, ptr)
        }
    }
}

/// Fields listed under a field-list node, numbered in declaration order.
pub open spec fn s_field_list_get(
    tree: SyntaxTree,
    v: VariantId,
    nodes: Seq<u32>,
    fkey: KeyKind,
    key: KeyKind,
    ptr: AstPtr,
) -> Option<DefValue>
    decreases nodes.len(),
{
    if nodes.len() == 0 {
        None
    } else {
        let i = nodes.len() - 1;
        if key == fkey && ptr == AstPtr::spec_new(tree, nodes.last()) {
            Some(DefValue::Field(FieldId { parent: v, local_id: i as u32 }))
        } else {
            s_field_list_get(tree, v, nodes.drop_last(), fkey, key, ptr)
        }
    }
}

/// Fields of a variant, read from its defining node: a record field list's
/// children or a tuple field list's children, in declaration order.  The
/// field numbering equals the lowered field order because field lowering
/// walks the same children in the same order.
pub open spec fn s_fields_get(
    db: Database,
    v: VariantId,
    file: HirFileId,
    key: KeyKind,
    ptr: AstPtr,
) -> Option<DefValue> {
    let loc = db.variant_loc(v);
    if loc.file_id != file {
        None
    } else {
        let tree = db.tree(file);
        match first_child(tree, loc.ptr.raw, SyntaxKind::RecordFieldList) {
            Some(rl) => s_field_list_get(
                tree,
                v,
                child_nodes(tree, rl, SyntaxKind::RecordField),
                KeyKind::RecordField,
                key,
                ptr,
            ),
            None => match first_child(tree, loc.ptr.raw, SyntaxKind::TupleFieldList) {
                Some(tl) => s_field_list_get(
                    tree,
                    v,
                    child_nodes(tree, tl, SyntaxKind::TupleField),
                    KeyKind::TupleField,
                    key,
                    ptr,
                ),
                None => None,
            },
        }
    }
}

/// Explicitly written type and const parameters, numbered from `base` and
/// cut off at the lowered parameter count.
pub open spec fn s_toc_list_get(
    tree: SyntaxTree,
    g: GenericDefId,
    nodes: Seq<u32>,
    base: int,
    limit: int,
    key: KeyKind,
    ptr: AstPtr,
) -> Option<DefValue>
    decreases nodes.len(),
{
    if nodes.len() == 0 {
        None
    } else {
        let i = nodes.len() - 1;
        let node_key = if tree.nodes[nodes.last() as int].kind == SyntaxKind::TypeParam {
            KeyKind::TypeParam
        } else {
            KeyKind::ConstParam
        };
        if base + i < limit && key == node_key && ptr == AstPtr::spec_new(tree, nodes.last()) {
            Some(
                DefValue::TypeOrConstParam(
                    TypeOrConstParamId { parent: g, local_id: (base + i) as u32 },
                ),
            )
        } else {
            s_toc_list_get(tree, g, nodes.drop_last(), base, limit, key, ptr)
        }
    }
}

/// Explicitly written lifetime parameters, cut off at the lowered count.
pub open spec fn s_lifetime_list_get(
    tree: SyntaxTree,
    g: GenericDefId,
    nodes: Seq<u32>,
    limit: int,
    key: KeyKind,
    ptr: AstPtr,
) -> Option<DefValue>
    decreases nodes.len(),
{
    if nodes.len() == 0 {
        None
    } else {
        let i = nodes.len() - 1;
        if i < limit && key == KeyKind::LifetimeParam && ptr == AstPtr::spec_new(
            tree,
            nodes.last(),
        ) {
            Some(DefValue::LifetimeParam(LifetimeParamId { parent: g, local_id: i as u32 }))
        } else {
            s_lifetime_list_get(tree, g, nodes.drop_last(), limit, key, ptr)
        }
    }
}

/// Whether a generic definition owns an implicit `Self` type parameter.
pub open spec fn s_has_implicit_self(g: GenericDefId) -> bool {
    g is TraitId || g is TraitAliasId
}

/// The implicit trait `Self` parameter: the first lowered type parameter,
/// associated with the trait's own declaration node.
pub open spec fn s_self_param_get(
    db: Database,
    g: GenericDefId,
    file: HirFileId,
    key: KeyKind,
    ptr: AstPtr,
) -> Option<DefValue> {
    let loc = db.generic_def_loc(g);
    if s_has_implicit_self(g) && db.generic_def_params(g).n_type_or_consts >= 1 && key
        == KeyKind::TypeParam && ptr == loc.ptr {
        Some(DefValue::TypeOrConstParam(TypeOrConstParamId { parent: g, local_id: 0 }))
    } else {
        None
    }
}

/// Generic parameters of a definition: the implicit `Self` first, then the
/// written type, const and lifetime parameters, zipped with the lowered
/// parameter numbering.
pub open spec fn s_generic_params_get(
    db: Database,
    g: GenericDefId,
    file: HirFileId,
    key: KeyKind,
    ptr: AstPtr,
) -> Option<DefValue> {
    let loc = db.generic_def_loc(g);
    if loc.file_id != file {
        None
    } else {
        let tree = db.tree(file);
        let base: int = if s_has_implicit_self(g) {
            1
        } else {
            0
        };
        let n_toc = db.generic_def_params(g).n_type_or_consts as int;
        let n_lt = db.generic_def_params(g).n_lifetimes as int;
        let rest = match first_child(tree, loc.ptr.raw, SyntaxKind::GenericParamList) {
            Some(pl) => over(
                s_lifetime_list_get(
                    tree,
                    g,
                    child_nodes(tree, pl, SyntaxKind::LifetimeParam),
                    n_lt,
                    key,
                    ptr,
                ),
                s_toc_list_get(
                    tree,
                    g,
                    child_nodes2(tree, pl, SyntaxKind::TypeParam, SyntaxKind::ConstParam),
                    base,
                    n_toc,
                    key,
                    ptr,
                ),
            ),
            None => None,
        };
        over(rest, s_self_param_get(db, g, file, key, ptr))
    }
}

/// Children of a body: each item-declaring block scope, and through it the
/// contents of the block's own module.
pub open spec fn s_body_children_get(
    db: Database,
    blocks: Seq<BlockId>,
    file: HirFileId,
    key: KeyKind,
    ptr: AstPtr,
) -> Option<DefValue>
    decreases blocks.len(),
{
    if blocks.len() == 0 {
        None
    } else {
        let b = blocks.last();
        let bd = db.blocks[b.0 as int];
        let block_entry: Option<DefValue> = if bd.loc.file_id == file && key == KeyKind::Block
            && ptr == bd.loc.ptr {
            Some(DefValue::Block(b))
        } else {
            None
        };
        over(
            over(s_module_children_get(db, bd.root_module, file, key, ptr), block_entry),
            s_body_children_get(db, blocks.drop_last(), file, key, ptr),
        )
    }
}

/// The child association of one container for one file, pointwise.
pub open spec fn s_children_get(
    db: Database,
    container: ChildContainer,
    file: HirFileId,
    key: KeyKind,
    ptr: AstPtr,
) -> Option<DefValue> {
    match container {
        ChildContainer::ModuleId(m) => s_module_children_get(db, m, file, key, ptr),
        ChildContainer::TraitId(t) => s_assoc_items_get(
            db,
            db.traits[t.0 as int].items@,
            file,
            key,
            ptr,
        ),
        ChildContainer::TraitAliasId(_) => None,
        ChildContainer::ImplId(i) => s_assoc_items_get(
            db,
            db.impls[i.0 as int].items@,
            file,
            key,
            ptr,
        ),
        ChildContainer::EnumId(e) => s_variants_get(
            db,
            db.enums[e.0 as int].variants@,
            file,
            key,
            ptr,
        ),
        ChildContainer::VariantId(v) => s_fields_get(db, v, file, key, ptr),
        ChildContainer::TypeAliasId(_) => None,
        ChildContainer::GenericDefId(g) => s_generic_params_get(db, g, file, key, ptr),
        ChildContainer::DefWithBodyId(d) => s_body_children_get(
            db,
            db.body_of(d).blocks@,
            file,
            key,
            ptr,
        ),
    }
}

/// The tree of a file, real or synthetic.
pub fn db_tree(db: &Database, f: HirFileId) -> (r: &SyntaxTree)
    requires
        db.valid_hir_file(f),
    ensures
        *r == db.tree(f),
{
    match f {
        HirFileId::File(f) => &db.files[f.0 as usize],
        HirFileId::Macro(m) => &db.macro_files[m.0 as usize].tree,
    }
}

pub fn item_key_pub(item: ItemId) -> (r: KeyKind)
    ensures
        r == s_item_key(item),
{
    match item {
        ItemId::StructId(_) => KeyKind::Struct,
        ItemId::UnionId(_) => KeyKind::Union,
        ItemId::EnumId(_) => KeyKind::Enum,
        ItemId::FunctionId(_) => KeyKind::Function,
        ItemId::ConstId(_) => KeyKind::Const,
        ItemId::StaticId(_) => KeyKind::Static,
        ItemId::TraitId(_) => KeyKind::Trait,
        ItemId::TraitAliasId(_) => KeyKind::TraitAlias,
        ItemId::TypeAliasId(_) => KeyKind::TypeAlias,
        ItemId::ImplId(_) => KeyKind::Impl,
        ItemId::ExternCrateId(_) => KeyKind::ExternCrate,
        ItemId::ExternBlockId(_) => KeyKind::ExternBlock,
        ItemId::UseId(_) => KeyKind::Use,
        ItemId::Macro2Id(_) => KeyKind::Macro2,
        ItemId::MacroRulesId(_) => KeyKind::MacroRules,
        ItemId::ProcMacroId(_) => KeyKind::ProcMacro,
    }
}

pub fn item_value_pub(item: ItemId) -> (r: DefValue)
    ensures
        r == s_item_value(item),
{
    match item {
        ItemId::StructId(id) => DefValue::Struct(id),
        ItemId::UnionId(id) => DefValue::Union(id),
        ItemId::EnumId(id) => DefValue::Enum(id),
        ItemId::FunctionId(id) => DefValue::Function(id),
        ItemId::ConstId(id) => DefValue::Const(id),
        ItemId::StaticId(id) => DefValue::Static(id),
        ItemId::TraitId(id) => DefValue::Trait(id),
        ItemId::TraitAliasId(id) => DefValue::TraitAlias(id),
        ItemId::TypeAliasId(id) => DefValue::TypeAlias(id),
        ItemId::ImplId(id) => DefValue::Impl(id),
        ItemId::ExternCrateId(id) => DefValue::ExternCrate(id),
        ItemId::ExternBlockId(id) => DefValue::ExternBlock(id),
        ItemId::UseId(id) => DefValue::Use(id),
        ItemId::Macro2Id(id) => DefValue::Macro2(id),
        ItemId::MacroRulesId(id) => DefValue::MacroRules(id),
        ItemId::ProcMacroId(id) => DefValue::ProcMacro(id),
    }
}

/// Defining location of a scope item.
pub fn item_loc_of(db: &Database, item: ItemId) -> (r: crate::db::ItemLoc)
    requires
        db.valid_item(item),
    ensures
        r == db.item_loc(item),
{
    match item {
        ItemId::StructId(id) => db.structs[id.0 as usize].loc,
        ItemId::UnionId(id) => db.unions[id.0 as usize].loc,
        ItemId::EnumId(id) => db.enums[id.0 as usize].loc,
        ItemId::FunctionId(id) => db.functions[id.0 as usize].loc,
        ItemId::ConstId(id) => db.consts[id.0 as usize].loc,
        ItemId::StaticId(id) => db.statics[id.0 as usize].loc,
        ItemId::TraitId(id) => db.traits[id.0 as usize].loc,
        ItemId::TraitAliasId(id) => db.trait_aliases[id.0 as usize].loc,
        ItemId::TypeAliasId(id) => db.type_aliases[id.0 as usize].loc,
        ItemId::ImplId(id) => db.impls[id.0 as usize].loc,
        ItemId::ExternCrateId(id) => db.extern_crates[id.0 as usize].loc,
        ItemId::ExternBlockId(id) => db.extern_blocks[id.0 as usize].loc,
        ItemId::UseId(id) => db.uses[id.0 as usize].loc,
        ItemId::Macro2Id(id) => db.macro2s[id.0 as usize].loc,
        ItemId::MacroRulesId(id) => db.macro_rules_defs[id.0 as usize].loc,
        ItemId::ProcMacroId(id) => db.proc_macros[id.0 as usize].loc,
    }
}

/// Defining location of a generic-parameter owner.
pub fn generic_def_loc_of(db: &Database, g: GenericDefId) -> (r: crate::db::ItemLoc)
    requires
        db.valid_generic_def(g),
    ensures
        r == db.generic_def_loc(g),
{
    match g {
        GenericDefId::FunctionId(id) => db.functions[id.0 as usize].loc,
        GenericDefId::AdtId(AdtId::StructId(id)) => db.structs[id.0 as usize].loc,
        GenericDefId::AdtId(AdtId::UnionId(id)) => db.unions[id.0 as usize].loc,
        GenericDefId::AdtId(AdtId::EnumId(id)) => db.enums[id.0 as usize].loc,
        GenericDefId::TraitId(id) => db.traits[id.0 as usize].loc,
        GenericDefId::TraitAliasId(id) => db.trait_aliases[id.0 as usize].loc,
        GenericDefId::TypeAliasId(id) => db.type_aliases[id.0 as usize].loc,
        GenericDefId::ImplId(id) => db.impls[id.0 as usize].loc,
        GenericDefId::ConstId(id) => db.consts[id.0 as usize].loc,
    }
}

fn generic_def_params_of(db: &Database, g: GenericDefId) -> (r: crate::db::GenericParams)
    requires
        db.valid_generic_def(g),
    ensures
        r == db.generic_def_params(g),
{
    match g {
        GenericDefId::FunctionId(id) => db.functions[id.0 as usize].generics,
        GenericDefId::AdtId(AdtId::StructId(id)) => db.structs[id.0 as usize].generics,
        GenericDefId::AdtId(AdtId::UnionId(id)) => db.unions[id.0 as usize].generics,
        GenericDefId::AdtId(AdtId::EnumId(id)) => db.enums[id.0 as usize].generics,
        GenericDefId::TraitId(id) => db.traits[id.0 as usize].generics,
        GenericDefId::TraitAliasId(id) => db.trait_aliases[id.0 as usize].generics,
        GenericDefId::TypeAliasId(id) => db.type_aliases[id.0 as usize].generics,
        GenericDefId::ImplId(id) => db.impls[id.0 as usize].generics,
        GenericDefId::ConstId(id) => db.consts[id.0 as usize].generics,
    }
}

/// Defining location of a variant.
pub fn variant_loc_of(db: &Database, v: VariantId) -> (r: crate::db::ItemLoc)
    requires
        db.valid_variant(v),
    ensures
        r == db.variant_loc(v),
{
    match v {
        VariantId::EnumVariantId(id) => db.enum_variants[id.0 as usize].loc,
        VariantId::StructId(id) => db.structs[id.0 as usize].loc,
        VariantId::UnionId(id) => db.unions[id.0 as usize].loc,
    }
}

#[verifier::loop_isolation(false)]
fn add_scope_entries(m: &mut DynMap, db: &Database, mid: ModuleId, file: HirFileId)
    requires
        old(m).wf(),
        db.wf(),
        db.valid_module(mid),
    ensures
        final(m).wf(),
        forall|key: KeyKind, ptr: AstPtr| #[trigger] final(m).spec_fwd(key, ptr) == over(
            s_scope_get(*db, db.module_data(mid).scope@, file, key, ptr),
            old(m).spec_fwd(key, ptr),
        ),
        forall|key: KeyKind, def: DefValue| #[trigger] final(m).spec_rev(key, def) == old(
            m,
        ).spec_rev(key, def),
{
    let items = &db.crates[mid.krate.0 as usize].modules[mid.local_id as usize].scope;
    let ghost itemsg = db.module_data(mid).scope@;
    let mut i: usize = 0;
    while i < items.len()
        invariant
            0 <= i <= items.len(),
            m.wf(),
            forall|key: KeyKind, ptr: AstPtr| #[trigger] m.spec_fwd(key, ptr) == over(
                s_scope_get(*db, itemsg.subrange(0, i as int), file, key, ptr),
                old(m).spec_fwd(key, ptr),
            ),
            forall|key: KeyKind, def: DefValue| #[trigger] m.spec_rev(key, def) == old(
                m,
            ).spec_rev(key, def),
        decreases items.len() - i,
    {
        let item = items[i];
        proof {
            assert(db.valid_item(item));
            assert(itemsg.subrange(0, i + 1).drop_last() =~= itemsg.subrange(0, i as int));
            assert(itemsg.subrange(0, i + 1).last() == itemsg[i as int]);
        }
        let loc = item_loc_of(db, item);
        if hir_file_eq(loc.file_id, file) {
            m.insert_fwd(item_key_pub(item), loc.ptr, item_value_pub(item));
        }
        i += 1;
    }
    proof {
        assert(itemsg.subrange(0, items@.len() as int) =~= itemsg);
    }
}

/// Structural equality of two file identities.
pub fn hir_file_eq(a: HirFileId, b: HirFileId) -> (r: bool)
    ensures
        r <==> a == b,
{
    match (a, b) {
        (HirFileId::File(x), HirFileId::File(y)) => x == y,
        (HirFileId::Macro(x), HirFileId::Macro(y)) => x == y,
        _ => false,
    }
}

#[verifier::loop_isolation(false)]
fn add_macro_call_entries(m: &mut DynMap, db: &Database, mid: ModuleId, file: HirFileId)
    requires
        old(m).wf(),
        db.wf(),
        db.valid_module(mid),
    ensures
        final(m).wf(),
        forall|key: KeyKind, ptr: AstPtr| #[trigger] final(m).spec_fwd(key, ptr) == over(
            s_macro_calls_get(db.module_data(mid).macro_calls@, file, key, ptr),
            old(m).spec_fwd(key, ptr),
        ),
        forall|key: KeyKind, def: DefValue| #[trigger] final(m).spec_rev(key, def) == old(
            m,
        ).spec_rev(key, def),
{
    let entries = &db.crates[mid.krate.0 as usize].modules[mid.local_id as usize].macro_calls;
    let ghost eg = db.module_data(mid).macro_calls@;
    let mut i: usize = 0;
    while i < entries.len()
        invariant
            0 <= i <= entries.len(),
            m.wf(),
            forall|key: KeyKind, ptr: AstPtr| #[trigger] m.spec_fwd(key, ptr) == over(
                s_macro_calls_get(eg.subrange(0, i as int), file, key, ptr),
                old(m).spec_fwd(key, ptr),
            ),
            forall|key: KeyKind, def: DefValue| #[trigger] m.spec_rev(key, def) == old(
                m,
            ).spec_rev(key, def),
        decreases entries.len() - i,
    {
        let e = entries[i];
        proof {
            assert(eg.subrange(0, i + 1).drop_last() =~= eg.subrange(0, i as int));
            assert(eg.subrange(0, i + 1).last() == eg[i as int]);
        }
        if hir_file_eq(e.0.file_id, file) {
            m.insert_fwd(KeyKind::MacroCall, e.0.value, DefValue::MacroCall(e.1));
        }
        i += 1;
    }
    proof {
        assert(eg.subrange(0, entries@.len() as int) =~= eg);
    }
}

#[verifier::loop_isolation(false)]
fn add_attr_call_entries(m: &mut DynMap, db: &Database, mid: ModuleId, file: HirFileId)
    requires
        old(m).wf(),
        db.wf(),
        db.valid_module(mid),
    ensures
        final(m).wf(),
        forall|key: KeyKind, ptr: AstPtr| #[trigger] final(m).spec_fwd(key, ptr) == over(
            s_attr_calls_get(db.module_data(mid).attr_calls@, file, key, ptr),
            old(m).spec_fwd(key, ptr),
        ),
        forall|key: KeyKind, def: DefValue| #[trigger] final(m).spec_rev(key, def) == old(
            m,
        ).spec_rev(key, def),
{
    let entries = &db.crates[mid.krate.0 as usize].modules[mid.local_id as usize].attr_calls;
    let ghost eg = db.module_data(mid).attr_calls@;
    let mut i: usize = 0;
    while i < entries.len()
        invariant
            0 <= i <= entries.len(),
            m.wf(),
            forall|key: KeyKind, ptr: AstPtr| #[trigger] m.spec_fwd(key, ptr) == over(
                s_attr_calls_get(eg.subrange(0, i as int), file, key, ptr),
                old(m).spec_fwd(key, ptr),
            ),
            forall|key: KeyKind, def: DefValue| #[trigger] m.spec_rev(key, def) == old(
                m,
            ).spec_rev(key, def),
        decreases entries.len() - i,
    {
        let e = entries[i];
        proof {
            assert(eg.subrange(0, i + 1).drop_last() =~= eg.subrange(0, i as int));
            assert(eg.subrange(0, i + 1).last() == eg[i as int]);
        }
        if hir_file_eq(e.0.file_id, file) {
            m.insert_fwd(KeyKind::AttrMacroCall, e.0.value, DefValue::MacroCall(e.1));
        }
        i += 1;
    }
    proof {
        assert(eg.subrange(0, entries@.len() as int) =~= eg);
    }
}

#[verifier::loop_isolation(false)]
fn add_derive_call_entries(m: &mut DynMap, db: &Database, mid: ModuleId, file: HirFileId)
    requires
        old(m).wf(),
        db.wf(),
        db.valid_module(mid),
    ensures
        final(m).wf(),
        forall|key: KeyKind, ptr: AstPtr| #[trigger] final(m).spec_fwd(key, ptr) == over(
            s_derive_calls_get(*db, db.module_data(mid).derive_calls@, file, key, ptr),
            old(m).spec_fwd(key, ptr),
        ),
        forall|key: KeyKind, def: DefValue| #[trigger] final(m).spec_rev(key, def) == old(
            m,
        ).spec_rev(key, def),
{
    let entries = &db.crates[mid.krate.0 as usize].modules[mid.local_id as usize].derive_calls;
    let ghost eg = db.module_data(mid).derive_calls@;
    let mut i: usize = 0;
    while i < entries.len()
        invariant
            0 <= i <= entries.len(),
            m.wf(),
            forall|key: KeyKind, ptr: AstPtr| #[trigger] m.spec_fwd(key, ptr) == over(
                s_derive_calls_get(*db, eg.subrange(0, i as int), file, key, ptr),
                old(m).spec_fwd(key, ptr),
            ),
            forall|key: KeyKind, def: DefValue| #[trigger] m.spec_rev(key, def) == old(
                m,
            ).spec_rev(key, def),
        decreases entries.len() - i,
    {
        let e = entries[i];
        proof {
            assert(eg.subrange(0, i + 1).drop_last() =~= eg.subrange(0, i as int));
            assert(eg.subrange(0, i + 1).last() == eg[i as int]);
        }
        if hir_file_eq(e.0.file_id, file) {
            let dd = &db.derive_defs[e.1.0 as usize];
            m.insert_fwd(
                KeyKind::DeriveMacroCall,
                e.0.value,
                DefValue::Derive(dd.attr_id, dd.call, e.1),
            );
        }
        i += 1;
    }
    proof {
        assert(eg.subrange(0, entries@.len() as int) =~= eg);
    }
}

/// All four sections of a module's children.
fn add_module_entries(m: &mut DynMap, db: &Database, mid: ModuleId, file: HirFileId)
    requires
        old(m).wf(),
        db.wf(),
        db.valid_module(mid),
    ensures
        final(m).wf(),
        forall|key: KeyKind, ptr: AstPtr| #[trigger] final(m).spec_fwd(key, ptr) == over(
            s_module_children_get(*db, mid, file, key, ptr),
            old(m).spec_fwd(key, ptr),
        ),
        forall|key: KeyKind, def: DefValue| #[trigger] final(m).spec_rev(key, def) == old(
            m,
        ).spec_rev(key, def),
{
    add_scope_entries(m, db, mid, file);
    add_macro_call_entries(m, db, mid, file);
    add_attr_call_entries(m, db, mid, file);
    add_derive_call_entries(m, db, mid, file);
}

#[verifier::loop_isolation(false)]
fn add_assoc_entries(
    m: &mut DynMap,
    db: &Database,
    container_items: &Vec<AssocItemId>,
    file: HirFileId,
)
    requires
        old(m).wf(),
        db.wf(),
        forall|k: int|
            0 <= k < container_items.len() ==> db.valid_assoc_item(#[trigger] container_items[k]),
    ensures
        final(m).wf(),
        forall|key: KeyKind, ptr: AstPtr| #[trigger] final(m).spec_fwd(key, ptr) == over(
            s_assoc_items_get(*db, container_items@, file, key, ptr),
            old(m).spec_fwd(key, ptr),
        ),
        forall|key: KeyKind, def: DefValue| #[trigger] final(m).spec_rev(key, def) == old(
            m,
        ).spec_rev(key, def),
{
    let mut i: usize = 0;
    while i < container_items.len()
        invariant
            0 <= i <= container_items.len(),
            m.wf(),
            forall|key: KeyKind, ptr: AstPtr| #[trigger] m.spec_fwd(key, ptr) == over(
                s_assoc_items_get(*db, container_items@.subrange(0, i as int), file, key, ptr),
                old(m).spec_fwd(key, ptr),
            ),
            forall|key: KeyKind, def: DefValue| #[trigger] m.spec_rev(key, def) == old(
                m,
            ).spec_rev(key, def),
        decreases container_items.len() - i,
    {
        let item = container_items[i];
        proof {
            assert(container_items@.subrange(0, i + 1).drop_last() =~= container_items@.subrange(
                0,
                i as int,
            ));
            assert(container_items@.subrange(0, i + 1).last() == container_items@[i as int]);
        }
        match item {
            AssocItemId::FunctionId(id) => {
                let loc = db.functions[id.0 as usize].loc;
                if hir_file_eq(loc.file_id, file) {
                    m.insert_fwd(KeyKind::Function, loc.ptr, DefValue::Function(id));
                }
            },
            AssocItemId::ConstId(id) => {
                let loc = db.consts[id.0 as usize].loc;
                if hir_file_eq(loc.file_id, file) {
                    m.insert_fwd(KeyKind::Const, loc.ptr, DefValue::Const(id));
                }
            },
            AssocItemId::TypeAliasId(id) => {
                let loc = db.type_aliases[id.0 as usize].loc;
                if hir_file_eq(loc.file_id, file) {
                    m.insert_fwd(KeyKind::TypeAlias, loc.ptr, DefValue::TypeAlias(id));
                }
            },
        }
        i += 1;
    }
    proof {
        assert(container_items@.subrange(0, container_items@.len() as int) =~= container_items@);
    }
}

#[verifier::loop_isolation(false)]
fn add_variant_entries(
    m: &mut DynMap,
    db: &Database,
    variants: &Vec<EnumVariantId>,
    file: HirFileId,
)
    requires
        old(m).wf(),
        db.wf(),
        forall|k: int| 0 <= k < variants.len() ==> (#[trigger] variants[k]).0 < db.enum_variants.len(),
    ensures
        final(m).wf(),
        forall|key: KeyKind, ptr: AstPtr| #[trigger] final(m).spec_fwd(key, ptr) == over(
            s_variants_get(*db, variants@, file, key, ptr),
            old(m).spec_fwd(key, ptr),
        ),
        forall|key: KeyKind, def: DefValue| #[trigger] final(m).spec_rev(key, def) == old(
            m,
        ).spec_rev(key, def),
{
    let mut i: usize = 0;
    while i < variants.len()
        invariant
            0 <= i <= variants.len(),
            m.wf(),
            forall|key: KeyKind, ptr: AstPtr| #[trigger] m.spec_fwd(key, ptr) == over(
                s_variants_get(*db, variants@.subrange(0, i as int), file, key, ptr),
                old(m).spec_fwd(key, ptr),
            ),
            forall|key: KeyKind, def: DefValue| #[trigger] m.spec_rev(key, def) == old(
                m,
            ).spec_rev(key, def),
        decreases variants.len() - i,
    {
        let v = variants[i];
        proof {
            assert(variants@.subrange(0, i + 1).drop_last() =~= variants@.subrange(0, i as int));
            assert(variants@.subrange(0, i + 1).last() == variants@[i as int]);
        }
        let loc = db.enum_variants[v.0 as usize].loc;
        if hir_file_eq(loc.file_id, file) {
            m.insert_fwd(KeyKind::EnumVariant, loc.ptr, DefValue::EnumVariant(v));
        }
        i += 1;
    }
    proof {
        assert(variants@.subrange(0, variants@.len() as int) =~= variants@);
    }
}

#[verifier::loop_isolation(false)]
fn add_field_list_entries(
    m: &mut DynMap,
    tree: &SyntaxTree,
    v: VariantId,
    nodes: &Vec<u32>,
    fkey: KeyKind,
)
    requires
        old(m).wf(),
        tree.wf(),
        nodes.len() <= u32::MAX,
        forall|k: int| 0 <= k < nodes.len() ==> (#[trigger] nodes[k]) < tree.nodes.len(),
    ensures
        final(m).wf(),
        forall|key: KeyKind, ptr: AstPtr| #[trigger] final(m).spec_fwd(key, ptr) == over(
            s_field_list_get(*tree, v, nodes@, fkey, key, ptr),
            old(m).spec_fwd(key, ptr),
        ),
        forall|key: KeyKind, def: DefValue| #[trigger] final(m).spec_rev(key, def) == old(
            m,
        ).spec_rev(key, def),
{
    let mut i: usize = 0;
    while i < nodes.len()
        invariant
            0 <= i <= nodes.len(),
            m.wf(),
            forall|key: KeyKind, ptr: AstPtr| #[trigger] m.spec_fwd(key, ptr) == over(
                s_field_list_get(*tree, v, nodes@.subrange(0, i as int), fkey, key, ptr),
                old(m).spec_fwd(key, ptr),
            ),
            forall|key: KeyKind, def: DefValue| #[trigger] m.spec_rev(key, def) == old(
                m,
            ).spec_rev(key, def),
        decreases nodes.len() - i,
    {
        let n = nodes[i];
        proof {
            assert(nodes@.subrange(0, i + 1).drop_last() =~= nodes@.subrange(0, i as int));
            assert(nodes@.subrange(0, i + 1).last() == nodes@[i as int]);
        }
        let ptr = AstPtr::of_node(tree, n);
        m.insert_fwd(fkey, ptr, DefValue::Field(FieldId { parent: v, local_id: i as u32 }));
        i += 1;
    }
    proof {
        assert(nodes@.subrange(0, nodes@.len() as int) =~= nodes@);
    }
}

fn add_field_entries(m: &mut DynMap, db: &Database, v: VariantId, file: HirFileId)
    requires
        old(m).wf(),
        db.wf(),
        db.valid_variant(v),
        db.valid_hir_file(file),
    ensures
        final(m).wf(),
        forall|key: KeyKind, ptr: AstPtr| #[trigger] final(m).spec_fwd(key, ptr) == over(
            s_fields_get(*db, v, file, key, ptr),
            old(m).spec_fwd(key, ptr),
        ),
        forall|key: KeyKind, def: DefValue| #[trigger] final(m).spec_rev(key, def) == old(
            m,
        ).spec_rev(key, def),
{
    let loc = variant_loc_of(db, v);
    if !hir_file_eq(loc.file_id, file) {
        return ;
    }
    let tree = db_tree(db, file);
    match find_first_child(tree, loc.ptr.raw, SyntaxKind::RecordFieldList) {
        Some(rl) => {
            let nodes = collect_child_nodes(tree, rl, SyntaxKind::RecordField);
            proof {
                crate::syntax::lemma_child_nodes_upto_props(
                    *tree,
                    rl,
                    SyntaxKind::RecordField,
                    tree.nodes.len() as int,
                );
            }
            add_field_list_entries(m, tree, v, &nodes, KeyKind::RecordField);
        },
        None => {
            match find_first_child(tree, loc.ptr.raw, SyntaxKind::TupleFieldList) {
                Some(tl) => {
                    let nodes = collect_child_nodes(tree, tl, SyntaxKind::TupleField);
                    proof {
                        crate::syntax::lemma_child_nodes_upto_props(
                            *tree,
                            tl,
                            SyntaxKind::TupleField,
                            tree.nodes.len() as int,
                        );
                    }
                    add_field_list_entries(m, tree, v, &nodes, KeyKind::TupleField);
                },
                None => {},
            }
        },
    }
}

#[verifier::loop_isolation(false)]
fn add_generic_entries(m: &mut DynMap, db: &Database, g: GenericDefId, file: HirFileId)
    requires
        old(m).wf(),
        db.wf(),
        db.valid_generic_def(g),
        db.valid_hir_file(file),
    ensures
        final(m).wf(),
        forall|key: KeyKind, ptr: AstPtr| #[trigger] final(m).spec_fwd(key, ptr) == over(
            s_generic_params_get(*db, g, file, key, ptr),
            old(m).spec_fwd(key, ptr),
        ),
        forall|key: KeyKind, def: DefValue| #[trigger] final(m).spec_rev(key, def) == old(
            m,
        ).spec_rev(key, def),
{
    let loc = generic_def_loc_of(db, g);
    if !hir_file_eq(loc.file_id, file) {
        return ;
    }
    let params = generic_def_params_of(db, g);
    let has_self = match g {
        GenericDefId::TraitId(_) => true,
        GenericDefId::TraitAliasId(_) => true,
        _ => false,
    };
    if has_self && params.n_type_or_consts >= 1 {
        m.insert_fwd(
            KeyKind::TypeParam,
            loc.ptr,
            DefValue::TypeOrConstParam(TypeOrConstParamId { parent: g, local_id: 0 }),
        );
    }
    let ghost after_self = *m;
    proof {
        assert forall|key: KeyKind, ptr: AstPtr| #[trigger]
            after_self.spec_fwd(key, ptr) == over(
                s_self_param_get(*db, g, file, key, ptr),
                old(m).spec_fwd(key, ptr),
            ) by {}
    }
    let tree = db_tree(db, file);
    let base: u32 = if has_self {
        1
    } else {
        0
    };
    match find_first_child(tree, loc.ptr.raw, SyntaxKind::GenericParamList) {
        None => {},
        Some(pl) => {
            let tocs = collect_child_nodes2(
                tree,
                pl,
                SyntaxKind::TypeParam,
                SyntaxKind::ConstParam,
            );
            proof {
                crate::syntax::lemma_child_nodes2_upto_props(
                    *tree,
                    pl,
                    SyntaxKind::TypeParam,
                    SyntaxKind::ConstParam,
                    tree.nodes.len() as int,
                );
            }
            let ghost tocsg = tocs@;
            let mut i: usize = 0;
            while i < tocs.len()
                invariant
                    0 <= i <= tocs.len(),
                    m.wf(),
                    forall|key: KeyKind, ptr: AstPtr| #[trigger] m.spec_fwd(key, ptr) == over(
                        s_toc_list_get(
                            *tree,
                            g,
                            tocsg.subrange(0, i as int),
                            base as int,
                            params.n_type_or_consts as int,
                            key,
                            ptr,
                        ),
                        after_self.spec_fwd(key, ptr),
                    ),
                    forall|key: KeyKind, def: DefValue| #[trigger] m.spec_rev(key, def) == old(
                        m,
                    ).spec_rev(key, def),
                decreases tocs.len() - i,
            {
                let n = tocs[i];
                proof {
                    assert(tocsg.subrange(0, i + 1).drop_last() =~= tocsg.subrange(0, i as int));
                    assert(tocsg.subrange(0, i + 1).last() == tocsg[i as int]);
                }
                if (base as usize) + i < (params.n_type_or_consts as usize) {
                    let k = tree.kind_of(n);
                    let kk = if k == SyntaxKind::TypeParam {
                        KeyKind::TypeParam
                    } else {
                        KeyKind::ConstParam
                    };
                    let local: u32 = base + (i as u32);
                    m.insert_fwd(
                        kk,
                        AstPtr::of_node(tree, n),
                        DefValue::TypeOrConstParam(
                            TypeOrConstParamId { parent: g, local_id: local },
                        ),
                    );
                }
                i += 1;
            }
            proof {
                assert(tocsg.subrange(0, tocsg.len() as int) =~= tocsg);
            }
            let ghost after_toc = *m;
            let lts = collect_child_nodes(tree, pl, SyntaxKind::LifetimeParam);
            proof {
                crate::syntax::lemma_child_nodes_upto_props(
                    *tree,
                    pl,
                    SyntaxKind::LifetimeParam,
                    tree.nodes.len() as int,
                );
            }
            let ghost ltsg = lts@;
            let mut i2: usize = 0;
            while i2 < lts.len()
                invariant
                    0 <= i2 <= lts.len(),
                    m.wf(),
                    forall|key: KeyKind, ptr: AstPtr| #[trigger] m.spec_fwd(key, ptr) == over(
                        s_lifetime_list_get(
                            *tree,
                            g,
                            ltsg.subrange(0, i2 as int),
                            params.n_lifetimes as int,
                            key,
                            ptr,
                        ),
                        after_toc.spec_fwd(key, ptr),
                    ),
                    forall|key: KeyKind, def: DefValue| #[trigger] m.spec_rev(key, def) == old(
                        m,
                    ).spec_rev(key, def),
                decreases lts.len() - i2,
            {
                let n = lts[i2];
                proof {
                    assert(ltsg.subrange(0, i2 + 1).drop_last() =~= ltsg.subrange(0, i2 as int));
                    assert(ltsg.subrange(0, i2 + 1).last() == ltsg[i2 as int]);
                }
                if i2 < (params.n_lifetimes as usize) {
                    m.insert_fwd(
                        KeyKind::LifetimeParam,
                        AstPtr::of_node(tree, n),
                        DefValue::LifetimeParam(
                            LifetimeParamId { parent: g, local_id: i2 as u32 },
                        ),
                    );
                }
                i2 += 1;
            }
            proof {
                assert(ltsg.subrange(0, ltsg.len() as int) =~= ltsg);
            }
        },
    }
}

#[verifier::loop_isolation(false)]
fn add_body_entries(m: &mut DynMap, db: &Database, d: DefWithBodyId, file: HirFileId)
    requires
        old(m).wf(),
        db.wf(),
        db.valid_body_owner(d),
    ensures
        final(m).wf(),
        forall|key: KeyKind, ptr: AstPtr| #[trigger] final(m).spec_fwd(key, ptr) == over(
            s_body_children_get(*db, db.body_of(d).blocks@, file, key, ptr),
            old(m).spec_fwd(key, ptr),
        ),
        forall|key: KeyKind, def: DefValue| #[trigger] final(m).spec_rev(key, def) == old(
            m,
        ).spec_rev(key, def),
{
    let blocks = match d {
        DefWithBodyId::FunctionId(id) => &db.functions[id.0 as usize].body.blocks,
        DefWithBodyId::StaticId(id) => &db.statics[id.0 as usize].body.blocks,
        DefWithBodyId::ConstId(id) => &db.consts[id.0 as usize].body.blocks,
        DefWithBodyId::VariantId(id) => &db.enum_variants[id.0 as usize].body.blocks,
    };
    proof {
        assert(db.wf_body(db.body_owner_loc(d), db.body_of(d)));
        assert(blocks@ == db.body_of(d).blocks@);
    }
    let mut i: usize = 0;
    while i < blocks.len()
        invariant
            0 <= i <= blocks.len(),
            m.wf(),
            forall|key: KeyKind, ptr: AstPtr| #[trigger] m.spec_fwd(key, ptr) == over(
                s_body_children_get(*db, blocks@.subrange(0, i as int), file, key, ptr),
                old(m).spec_fwd(key, ptr),
            ),
            forall|key: KeyKind, def: DefValue| #[trigger] m.spec_rev(key, def) == old(
                m,
            ).spec_rev(key, def),
        decreases blocks.len() - i,
    {
        let b = blocks[i];
        proof {
            assert(blocks@.subrange(0, i + 1).drop_last() =~= blocks@.subrange(0, i as int));
            assert(blocks@.subrange(0, i + 1).last() == blocks@[i as int]);
        }
        let bd_loc = db.blocks[b.0 as usize].loc;
        if hir_file_eq(bd_loc.file_id, file) {
            m.insert_fwd(KeyKind::Block, bd_loc.ptr, DefValue::Block(b));
        }
        let root = db.blocks[b.0 as usize].root_module;
        add_module_entries(m, db, root, file);
        i += 1;
    }
    proof {
        assert(blocks@.subrange(0, blocks@.len() as int) =~= blocks@);
    }
}

/// Build the Identity Map fragment of one container for one file: all of
/// its immediate semantic children keyed by their defining pointers.
pub fn child_by_source(db: &Database, container: ChildContainer, file_id: HirFileId) -> (r: DynMap)
    requires
        db.wf(),
        db.valid_container(container),
        db.valid_hir_file(file_id),
    ensures
        r.wf(),
        forall|key: KeyKind, ptr: AstPtr| #[trigger] r.spec_fwd(key, ptr) == s_children_get(
            *db,
            container,
            file_id,
            key,
            ptr,
        ),
        forall|key: KeyKind, def: DefValue| #[trigger] r.spec_rev(key, def) is None,
{
    let mut m = DynMap::new();
    match container {
        ChildContainer::ModuleId(mid) => {
            add_module_entries(&mut m, db, mid, file_id);
        },
        ChildContainer::TraitId(t) => {
            let items = &db.traits[t.0 as usize].items;
            add_assoc_entries(&mut m, db, items, file_id);
        },
        ChildContainer::TraitAliasId(_) => {},
        ChildContainer::ImplId(i) => {
            let items = &db.impls[i.0 as usize].items;
            add_assoc_entries(&mut m, db, items, file_id);
        },
        ChildContainer::EnumId(e) => {
            let variants = &db.enums[e.0 as usize].variants;
            add_variant_entries(&mut m, db, variants, file_id);
        },
        ChildContainer::VariantId(v) => {
            add_field_entries(&mut m, db, v, file_id);
        },
        ChildContainer::TypeAliasId(_) => {},
        ChildContainer::GenericDefId(g) => {
            add_generic_entries(&mut m, db, g, file_id);
        },
        ChildContainer::DefWithBodyId(d) => {
            add_body_entries(&mut m, db, d, file_id);
        },
    }
    m
}

/// Whether a stored definition value denotes an entity the database holds.
pub open spec fn s_def_value_valid(db: Database, v: DefValue) -> bool {
    match v {
        DefValue::Block(b) => b.0 < db.blocks.len(),
        DefValue::Function(id) => id.0 < db.functions.len(),
        DefValue::Const(id) => id.0 < db.consts.len(),
        DefValue::Static(id) => id.0 < db.statics.len(),
        DefValue::TypeAlias(id) => id.0 < db.type_aliases.len(),
        DefValue::Impl(id) => id.0 < db.impls.len(),
        DefValue::Trait(id) => id.0 < db.traits.len(),
        DefValue::TraitAlias(id) => id.0 < db.trait_aliases.len(),
        DefValue::Struct(id) => id.0 < db.structs.len(),
        DefValue::Union(id) => id.0 < db.unions.len(),
        DefValue::Enum(id) => id.0 < db.enums.len(),
        DefValue::ExternCrate(id) => id.0 < db.extern_crates.len(),
        DefValue::ExternBlock(id) => id.0 < db.extern_blocks.len(),
        DefValue::Use(id) => id.0 < db.uses.len(),
        DefValue::EnumVariant(id) => id.0 < db.enum_variants.len(),
        DefValue::Field(f) => db.valid_variant(f.parent),
        DefValue::TypeOrConstParam(t) => db.valid_generic_def(t.parent),
        DefValue::LifetimeParam(l) => db.valid_generic_def(l.parent),
        DefValue::MacroRules(id) => id.0 < db.macro_rules_defs.len(),
        DefValue::Macro2(id) => id.0 < db.macro2s.len(),
        DefValue::ProcMacro(id) => id.0 < db.proc_macros.len(),
        DefValue::MacroCall(id) => id.0 < db.macro_calls.len(),
        DefValue::Derive(_, c, d) => c.0 < db.macro_calls.len() && d.0 < db.derive_defs.len(),
    }
}

proof fn lemma_scope_valid(
    db: Database,
    items: Seq<ItemId>,
    file: HirFileId,
    key: KeyKind,
    ptr: AstPtr,
)
    requires
        forall|k: int| 0 <= k < items.len() ==> db.valid_item(#[trigger] items[k]),
    ensures
        match s_scope_get(db, items, file, key, ptr) {
            Some(v) => s_def_value_valid(db, v),
            None => true,
        },
    decreases items.len(),
{
    if items.len() > 0 {
        assert forall|k: int|
            0 <= k < items.drop_last().len() implies db.valid_item(
            #[trigger] items.drop_last()[k]) by {
            assert(items.drop_last()[k] == items[k]);
        }
        lemma_scope_valid(db, items.drop_last(), file, key, ptr);
        assert(db.valid_item(items[items.len() - 1]));
    }
}

proof fn lemma_module_children_valid(
    db: Database,
    m: ModuleId,
    file: HirFileId,
    key: KeyKind,
    ptr: AstPtr,
)
    requires
        db.wf(),
        db.valid_module(m),
    ensures
        match s_module_children_get(db, m, file, key, ptr) {
            Some(v) => s_def_value_valid(db, v),
            None => true,
        },
{
    let md = db.module_data(m);
    assert(db.wf_module(m.krate, md));
    lemma_scope_valid(db, md.scope@, file, key, ptr);
    lemma_macro_like_valid(db, md.macro_calls@, file, key, ptr);
    lemma_macro_like_valid(db, md.attr_calls@, file, key, ptr);
    lemma_derive_calls_valid(db, md.derive_calls@, file, key, ptr);
    assert forall|k: int|
        0 <= k < md.macro_calls@.len() implies (#[trigger] md.macro_calls@[k]).1.0
        < db.macro_calls.len() by {
        assert(md.macro_calls[k] == md.macro_calls@[k]);
    }
}

proof fn lemma_macro_like_valid(
    db: Database,
    entries: Seq<(crate::syntax::InFile<AstPtr>, crate::ids::MacroCallId)>,
    file: HirFileId,
    key: KeyKind,
    ptr: AstPtr,
)
    requires
        forall|k: int| 0 <= k < entries.len() ==> (#[trigger] entries[k]).1.0 < db.macro_calls.len(),
    ensures
        match s_macro_calls_get(entries, file, key, ptr) {
            Some(v) => s_def_value_valid(db, v),
            None => true,
        },
        match s_attr_calls_get(entries, file, key, ptr) {
            Some(v) => s_def_value_valid(db, v),
            None => true,
        },
    decreases entries.len(),
{
    if entries.len() > 0 {
        assert forall|k: int|
            0 <= k < entries.drop_last().len() implies (#[trigger] entries.drop_last()[k]).1.0
            < db.macro_calls.len() by {
            assert(entries.drop_last()[k] == entries[k]);
        }
        lemma_macro_like_valid(db, entries.drop_last(), file, key, ptr);
        assert(entries[entries.len() - 1].1.0 < db.macro_calls.len());
    }
}

proof fn lemma_derive_calls_valid(
    db: Database,
    entries: Seq<(crate::syntax::InFile<AstPtr>, crate::ids::DeriveId)>,
    file: HirFileId,
    key: KeyKind,
    ptr: AstPtr,
)
    requires
        db.wf(),
        forall|k: int| 0 <= k < entries.len() ==> (#[trigger] entries[k]).1.0 < db.derive_defs.len(),
    ensures
        match s_derive_calls_get(db, entries, file, key, ptr) {
            Some(v) => s_def_value_valid(db, v),
            None => true,
        },
    decreases entries.len(),
{
    if entries.len() > 0 {
        assert forall|k: int|
            0 <= k < entries.drop_last().len() implies (#[trigger] entries.drop_last()[k]).1.0
            < db.derive_defs.len() by {
            assert(entries.drop_last()[k] == entries[k]);
        }
        lemma_derive_calls_valid(db, entries.drop_last(), file, key, ptr);
        let e = entries[entries.len() - 1];
        assert(e.1.0 < db.derive_defs.len());
        assert(db.derive_defs[e.1.0 as int].call.0 < db.macro_calls.len());
    }
}

proof fn lemma_assoc_items_valid(
    db: Database,
    items: Seq<AssocItemId>,
    file: HirFileId,
    key: KeyKind,
    ptr: AstPtr,
)
    requires
        forall|k: int| 0 <= k < items.len() ==> db.valid_assoc_item(#[trigger] items[k]),
    ensures
        match s_assoc_items_get(db, items, file, key, ptr) {
            Some(v) => s_def_value_valid(db, v),
            None => true,
        },
    decreases items.len(),
{
    if items.len() > 0 {
        assert forall|k: int|
            0 <= k < items.drop_last().len() implies db.valid_assoc_item(
            #[trigger] items.drop_last()[k]) by {
            assert(items.drop_last()[k] == items[k]);
        }
        lemma_assoc_items_valid(db, items.drop_last(), file, key, ptr);
        assert(db.valid_assoc_item(items[items.len() - 1]));
    }
}

proof fn lemma_variants_valid(
    db: Database,
    variants: Seq<EnumVariantId>,
    file: HirFileId,
    key: KeyKind,
    ptr: AstPtr,
)
    requires
        forall|k: int| 0 <= k < variants.len() ==> (#[trigger] variants[k]).0 < db.enum_variants.len(),
    ensures
        match s_variants_get(db, variants, file, key, ptr) {
            Some(v) => s_def_value_valid(db, v),
            None => true,
        },
    decreases variants.len(),
{
    if variants.len() > 0 {
        assert forall|k: int|
            0 <= k < variants.drop_last().len() implies (#[trigger] variants.drop_last()[k]).0
            < db.enum_variants.len() by {
            assert(variants.drop_last()[k] == variants[k]);
        }
        lemma_variants_valid(db, variants.drop_last(), file, key, ptr);
        assert(variants[variants.len() - 1].0 < db.enum_variants.len());
    }
}

proof fn lemma_field_list_valid(
    db: Database,
    tree: SyntaxTree,
    v: VariantId,
    nodes: Seq<u32>,
    fkey: KeyKind,
    key: KeyKind,
    ptr: AstPtr,
)
    requires
        db.valid_variant(v),
    ensures
        match s_field_list_get(tree, v, nodes, fkey, key, ptr) {
            Some(val) => s_def_value_valid(db, val),
            None => true,
        },
    decreases nodes.len(),
{
    if nodes.len() > 0 {
        lemma_field_list_valid(db, tree, v, nodes.drop_last(), fkey, key, ptr);
    }
}

proof fn lemma_toc_list_valid(
    db: Database,
    tree: SyntaxTree,
    g: GenericDefId,
    nodes: Seq<u32>,
    base: int,
    limit: int,
    key: KeyKind,
    ptr: AstPtr,
)
    requires
        db.valid_generic_def(g),
    ensures
        match s_toc_list_get(tree, g, nodes, base, limit, key, ptr) {
            Some(val) => s_def_value_valid(db, val),
            None => true,
        },
    decreases nodes.len(),
{
    if nodes.len() > 0 {
        lemma_toc_list_valid(db, tree, g, nodes.drop_last(), base, limit, key, ptr);
    }
}

proof fn lemma_lifetime_list_valid(
    db: Database,
    tree: SyntaxTree,
    g: GenericDefId,
    nodes: Seq<u32>,
    limit: int,
    key: KeyKind,
    ptr: AstPtr,
)
    requires
        db.valid_generic_def(g),
    ensures
        match s_lifetime_list_get(tree, g, nodes, limit, key, ptr) {
            Some(val) => s_def_value_valid(db, val),
            None => true,
        },
    decreases nodes.len(),
{
    if nodes.len() > 0 {
        lemma_lifetime_list_valid(db, tree, g, nodes.drop_last(), limit, key, ptr);
    }
}

proof fn lemma_body_children_valid(
    db: Database,
    blocks: Seq<BlockId>,
    file: HirFileId,
    key: KeyKind,
    ptr: AstPtr,
)
    requires
        db.wf(),
        forall|k: int| 0 <= k < blocks.len() ==> (#[trigger] blocks[k]).0 < db.blocks.len(),
    ensures
        match s_body_children_get(db, blocks, file, key, ptr) {
            Some(v) => s_def_value_valid(db, v),
            None => true,
        },
    decreases blocks.len(),
{
    if blocks.len() > 0 {
        assert forall|k: int|
            0 <= k < blocks.drop_last().len() implies (#[trigger] blocks.drop_last()[k]).0
            < db.blocks.len() by {
            assert(blocks.drop_last()[k] == blocks[k]);
        }
        lemma_body_children_valid(db, blocks.drop_last(), file, key, ptr);
        let b = blocks[blocks.len() - 1];
        assert(db.blocks[b.0 as int].loc == db.blocks[b.0 as int].loc);
        assert(db.valid_module(db.blocks[b.0 as int].root_module));
        lemma_module_children_valid(db, db.blocks[b.0 as int].root_module, file, key, ptr);
    }
}

/// Every definition a child map stores is one the database holds.
pub proof fn lemma_children_valid(
    db: Database,
    c: ChildContainer,
    file: HirFileId,
    key: KeyKind,
    ptr: AstPtr,
)
    requires
        db.wf(),
        db.valid_container(c),
    ensures
        match s_children_get(db, c, file, key, ptr) {
            Some(v) => s_def_value_valid(db, v),
            None => true,
        },
{
    match c {
        ChildContainer::ModuleId(m) => {
            lemma_module_children_valid(db, m, file, key, ptr);
        },
        ChildContainer::TraitId(t) => {
            lemma_assoc_items_valid(db, db.traits[t.0 as int].items@, file, key, ptr);
        },
        ChildContainer::TraitAliasId(_) => {},
        ChildContainer::ImplId(i) => {
            lemma_assoc_items_valid(db, db.impls[i.0 as int].items@, file, key, ptr);
        },
        ChildContainer::EnumId(e) => {
            lemma_variants_valid(db, db.enums[e.0 as int].variants@, file, key, ptr);
        },
        ChildContainer::VariantId(v) => {
            let loc = db.variant_loc(v);
            if loc.file_id == file {
                let tree = db.tree(file);
                match first_child(tree, loc.ptr.raw, SyntaxKind::RecordFieldList) {
                    Some(rl) => {
                        lemma_field_list_valid(
                            db,
                            tree,
                            v,
                            child_nodes(tree, rl, SyntaxKind::RecordField),
                            KeyKind::RecordField,
                            key,
                            ptr,
                        );
                    },
                    None => {
                        match first_child(tree, loc.ptr.raw, SyntaxKind::TupleFieldList) {
                            Some(tl) => {
                                lemma_field_list_valid(
                                    db,
                                    tree,
                                    v,
                                    child_nodes(tree, tl, SyntaxKind::TupleField),
                                    KeyKind::TupleField,
                                    key,
                                    ptr,
                                );
                            },
                            None => {},
                        }
                    },
                }
            }
        },
        ChildContainer::TypeAliasId(_) => {},
        ChildContainer::GenericDefId(g) => {
            let loc = db.generic_def_loc(g);
            if loc.file_id == file {
                let tree = db.tree(file);
                let base: int = if s_has_implicit_self(g) {
                    1
                } else {
                    0
                };
                let n_toc = db.generic_def_params(g).n_type_or_consts as int;
                let n_lt = db.generic_def_params(g).n_lifetimes as int;
                match first_child(tree, loc.ptr.raw, SyntaxKind::GenericParamList) {
                    Some(pl) => {
                        lemma_lifetime_list_get_valid_helper(db, tree, g, pl, n_lt, key, ptr);
                        lemma_toc_list_valid(
                            db,
                            tree,
                            g,
                            child_nodes2(tree, pl, SyntaxKind::TypeParam, SyntaxKind::ConstParam),
                            base,
                            n_toc,
                            key,
                            ptr,
                        );
                    },
                    None => {},
                }
            }
        },
        ChildContainer::DefWithBodyId(d) => {
            assert(db.wf_body(db.body_owner_loc(d), db.body_of(d)));
            let blocks = db.body_of(d).blocks;
            assert forall|k: int|
                0 <= k < blocks@.len() implies (#[trigger] blocks@[k]).0 < db.blocks.len() by {
                assert(blocks[k] == blocks@[k]);
            }
            lemma_body_children_valid(db, blocks@, file, key, ptr);
        },
    }
}

proof fn lemma_lifetime_list_get_valid_helper(
    db: Database,
    tree: SyntaxTree,
    g: GenericDefId,
    pl: u32,
    n_lt: int,
    key: KeyKind,
    ptr: AstPtr,
)
    requires
        db.valid_generic_def(g),
    ensures
        match s_lifetime_list_get(
            tree,
            g,
            child_nodes(tree, pl, SyntaxKind::LifetimeParam),
            n_lt,
            key,
            ptr,
        ) {
            Some(val) => s_def_value_valid(db, val),
            None => true,
        },
{
    lemma_lifetime_list_valid(
        db,
        tree,
        g,
        child_nodes(tree, pl, SyntaxKind::LifetimeParam),
        n_lt,
        key,
        ptr,
    );
}

} // verus!
