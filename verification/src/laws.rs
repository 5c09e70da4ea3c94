//! The library's stated laws, proved once over the pure resolution
//! functions.

use vstd::prelude::*;
use crate::FileId;
use crate::child_by_source::{
    s_children_get, s_item_key, s_item_value, s_lifetime_list_get, s_macro_calls_get,
    s_attr_calls_get, s_derive_calls_get, s_module_children_get, s_scope_get, s_toc_list_get,
    s_self_param_get,
};
use crate::db::{Database, ItemId};
use crate::dyn_map::{DefValue, KeyKind};
use crate::has_source::{s_toc_child_pairs, s_variant_field_nodes, s_variant_field_pairs};
use crate::ids::{
    ChildContainer, CrateId, GenericDefId, HirFileId, MacroFileId, ModuleId, TraitId,
    TypeOrConstParamId, VariantId,
};
use crate::source_to_def::{
    s_container_to_def, s_container_walk, s_crate_contribution, s_crate_modules_for_file,
    s_crate_modules_upto, s_expansion_info, s_file_to_modules, s_file_to_modules_upto,
    s_find_container, s_include_fallback_upto, s_module_declares_file, s_parent_ancestor,
    s_resolve, s_valid_node,
};
use crate::syntax::{child_nodes, child_nodes_upto, AstPtr, InFile, SyntaxKind};

verus! {

proof fn lemma_macro_section_other_key(
    entries: Seq<(InFile<AstPtr>, crate::ids::MacroCallId)>,
    file: HirFileId,
    key: KeyKind,
    ptr: AstPtr,
)
    requires
        key != KeyKind::MacroCall,
    ensures
        s_macro_calls_get(entries, file, key, ptr) is None,
    decreases entries.len(),
{
    if entries.len() > 0 {
        lemma_macro_section_other_key(entries.drop_last(), file, key, ptr);
    }
}

proof fn lemma_attr_section_other_key(
    entries: Seq<(InFile<AstPtr>, crate::ids::MacroCallId)>,
    file: HirFileId,
    key: KeyKind,
    ptr: AstPtr,
)
    requires
        key != KeyKind::AttrMacroCall,
    ensures
        s_attr_calls_get(entries, file, key, ptr) is None,
    decreases entries.len(),
{
    if entries.len() > 0 {
        lemma_attr_section_other_key(entries.drop_last(), file, key, ptr);
    }
}

proof fn lemma_derive_section_other_key(
    db: Database,
    entries: Seq<(InFile<AstPtr>, crate::ids::DeriveId)>,
    file: HirFileId,
    key: KeyKind,
    ptr: AstPtr,
)
    requires
        key != KeyKind::DeriveMacroCall,
    ensures
        s_derive_calls_get(db, entries, file, key, ptr) is None,
    decreases entries.len(),
{
    if entries.len() > 0 {
        lemma_derive_section_other_key(db, entries.drop_last(), file, key, ptr);
    }
}

/// A scope item is found under its own key and pointer when no later scope
/// entry of the same kind shadows that pointer in the same file.
proof fn lemma_scope_get_at(db: Database, items: Seq<ItemId>, i: int)
    requires
        0 <= i < items.len(),
        forall|j: int|
            i < j < items.len() ==> !(db.item_loc(#[trigger] items[j]).file_id == db.item_loc(
                items[i],
            ).file_id && s_item_key(items[j]) == s_item_key(items[i]) && db.item_loc(
                items[j],
            ).ptr == db.item_loc(items[i]).ptr),
    ensures
        s_scope_get(
            db,
            items,
            db.item_loc(items[i]).file_id,
            s_item_key(items[i]),
            db.item_loc(items[i]).ptr,
        ) == Some(s_item_value(items[i])),
    decreases items.len(),
{
    if i == items.len() - 1 {
    } else {
        assert(items.drop_last()[i] == items[i]);
        assert forall|j: int|
            i < j < items.drop_last().len() implies !(db.item_loc(
            #[trigger] items.drop_last()[j]).file_id == db.item_loc(
            items.drop_last()[i]).file_id && s_item_key(items.drop_last()[j]) == s_item_key(
            items.drop_last()[i]) && db.item_loc(items.drop_last()[j]).ptr == db.item_loc(
            items.drop_last()[i]).ptr) by {
            assert(items.drop_last()[j] == items[j]);
        }
        lemma_scope_get_at(db, items.drop_last(), i);
    }
}

/// Round trip, syntax side: a definition standing in a module's scope is
/// recovered from its own defining pointer by the child enumerator, as
/// long as no later scope entry of the same kind shadows that pointer.
pub proof fn lemma_children_round_trip(db: Database, m: ModuleId, i: int)
    requires
        db.wf(),
        db.valid_module(m),
        0 <= i < db.module_data(m).scope.len(),
        forall|j: int|
            i < j < db.module_data(m).scope.len() ==> !(db.item_loc(
                #[trigger] db.module_data(m).scope[j],
            ).file_id == db.item_loc(db.module_data(m).scope[i]).file_id && s_item_key(
                db.module_data(m).scope[j],
            ) == s_item_key(db.module_data(m).scope[i]) && db.item_loc(
                db.module_data(m).scope[j],
            ).ptr == db.item_loc(db.module_data(m).scope[i]).ptr),
    ensures
        ({
            let item = db.module_data(m).scope[i];
            let loc = db.item_loc(item);
            s_children_get(
                db,
                ChildContainer::ModuleId(m),
                loc.file_id,
                s_item_key(item),
                loc.ptr,
            ) == Some(s_item_value(item))
        }),
{
    let item = db.module_data(m).scope[i];
    let loc = db.item_loc(item);
    let md = db.module_data(m);
    assert forall|j: int|
        0 <= j < md.scope@.len() implies #[trigger] md.scope@[j] == md.scope[j] by {}
    lemma_scope_get_at(db, md.scope@, i);
    lemma_macro_section_other_key(md.macro_calls@, loc.file_id, s_item_key(item), loc.ptr);
    lemma_attr_section_other_key(md.attr_calls@, loc.file_id, s_item_key(item), loc.ptr);
    lemma_derive_section_other_key(db, md.derive_calls@, loc.file_id, s_item_key(item), loc.ptr);
}

/// Round trip: resolving a definition's own defining pointer under its own
/// key yields the definition back, whenever the classifier reaches the
/// module that owns it.  (When a file belongs to several module trees the
/// classifier may pick another owner; those inputs are excluded.)
pub proof fn lemma_resolve_round_trip(db: Database, m: ModuleId, i: int)
    requires
        db.wf(),
        db.valid_module(m),
        0 <= i < db.module_data(m).scope.len(),
        forall|j: int|
            i < j < db.module_data(m).scope.len() ==> !(db.item_loc(
                #[trigger] db.module_data(m).scope[j],
            ).file_id == db.item_loc(db.module_data(m).scope[i]).file_id && s_item_key(
                db.module_data(m).scope[j],
            ) == s_item_key(db.module_data(m).scope[i]) && db.item_loc(
                db.module_data(m).scope[j],
            ).ptr == db.item_loc(db.module_data(m).scope[i]).ptr),
        s_find_container(
            db,
            InFile {
                file_id: db.item_loc(db.module_data(m).scope[i]).file_id,
                value: db.item_loc(db.module_data(m).scope[i]).ptr.raw,
            },
        ) == Some(ChildContainer::ModuleId(m)),
        s_valid_node(
            db,
            InFile {
                file_id: db.item_loc(db.module_data(m).scope[i]).file_id,
                value: db.item_loc(db.module_data(m).scope[i]).ptr.raw,
            },
        ),
    ensures
        ({
            let item = db.module_data(m).scope[i];
            let loc = db.item_loc(item);
            s_resolve(db, loc.file_id, loc.ptr, s_item_key(item)) == Some(s_item_value(item))
        }),
{
    lemma_children_round_trip(db, m, i);
}

/// Macro-expansion traversal: at the root of a macro-expanded tree the
/// ancestor walk continues from the expansion's argument site, so the
/// container found there is the same one the walk would find had the
/// expanded text stood at the call site itself.
pub proof fn lemma_macro_expansion_traversal(db: Database, m: MacroFileId, n: InFile<u32>, pa: u32)
    requires
        db.wf(),
        n.file_id == HirFileId::Macro(m),
        s_valid_node(db, n),
        db.tree(n.file_id).nodes[n.value as int].parent is None,
        db.macro_files[m.0 as int].arg_node matches Some(a) && db.tree(
            db.macro_files[m.0 as int].call_file,
        ).nodes[a as int].parent == Some(pa),
    ensures
        s_parent_ancestor(db, n) == Some(
            InFile { file_id: db.macro_files[m.0 as int].call_file, value: pa },
        ),
        s_container_walk(db, n) == ({
            let site = InFile { file_id: db.macro_files[m.0 as int].call_file, value: pa };
            match s_container_to_def(db, site) {
                Some(c) => Some(c),
                None => s_container_walk(db, site),
            }
        }),
{
}

proof fn lemma_toc_list_none_when_full(
    tree: crate::syntax::SyntaxTree,
    g: GenericDefId,
    nodes: Seq<u32>,
    base: int,
    limit: int,
    key: KeyKind,
    ptr: AstPtr,
)
    requires
        limit <= base,
    ensures
        s_toc_list_get(tree, g, nodes, base, limit, key, ptr) is None,
    decreases nodes.len(),
{
    if nodes.len() > 0 {
        lemma_toc_list_none_when_full(tree, g, nodes.drop_last(), base, limit, key, ptr);
    }
}

proof fn lemma_lifetime_list_none_when_empty(
    tree: crate::syntax::SyntaxTree,
    g: GenericDefId,
    nodes: Seq<u32>,
    key: KeyKind,
    ptr: AstPtr,
)
    ensures
        s_lifetime_list_get(tree, g, nodes, 0, key, ptr) is None,
    decreases nodes.len(),
{
    if nodes.len() > 0 {
        lemma_lifetime_list_none_when_empty(tree, g, nodes.drop_last(), key, ptr);
    }
}

/// Trait `Self`: for a trait whose only lowered generic parameter is the
/// implicit `Self`, the generic-parameter container holds exactly one
/// child, numbered zero and associated with the trait's own declaration
/// node.
pub proof fn lemma_trait_implicit_self(db: Database, t: TraitId)
    requires
        db.wf(),
        t.0 < db.traits.len(),
        db.generic_def_params(GenericDefId::TraitId(t)).n_type_or_consts == 1,
        db.generic_def_params(GenericDefId::TraitId(t)).n_lifetimes == 0,
    ensures
        ({
            let g = GenericDefId::TraitId(t);
            let loc = db.generic_def_loc(g);
            &&& s_toc_child_pairs(db, g).len() == 1
            &&& s_toc_child_pairs(db, g)[0] == (
                TypeOrConstParamId { parent: g, local_id: 0 },
                loc.ptr,
            )
            &&& forall|key: KeyKind, ptr: AstPtr| #[trigger]
                s_children_get(db, ChildContainer::GenericDefId(g), loc.file_id, key, ptr)
                    == if key == KeyKind::TypeParam && ptr == loc.ptr {
                    Some(DefValue::TypeOrConstParam(TypeOrConstParamId { parent: g, local_id: 0 }))
                } else {
                    None::<DefValue>
                }
        }),
{
    let g = GenericDefId::TraitId(t);
    let loc = db.generic_def_loc(g);
    let tree = db.tree(loc.file_id);
    assert(crate::has_source::s_toc_explicit_count(db, g) == 0);
    assert(s_toc_child_pairs(db, g) =~= seq![
        (TypeOrConstParamId { parent: g, local_id: 0 }, loc.ptr),
    ]);
    assert forall|key: KeyKind, ptr: AstPtr| #[trigger]
        s_children_get(db, ChildContainer::GenericDefId(g), loc.file_id, key, ptr) == if key
            == KeyKind::TypeParam && ptr == loc.ptr {
            Some(DefValue::TypeOrConstParam(TypeOrConstParamId { parent: g, local_id: 0 }))
        } else {
            None::<DefValue>
        } by {
        match crate::syntax::first_child(tree, loc.ptr.raw, SyntaxKind::GenericParamList) {
            Some(pl) => {
                lemma_toc_list_none_when_full(
                    tree,
                    g,
                    crate::syntax::child_nodes2(
                        tree,
                        pl,
                        SyntaxKind::TypeParam,
                        SyntaxKind::ConstParam,
                    ),
                    1,
                    1,
                    key,
                    ptr,
                );
                lemma_lifetime_list_none_when_empty(
                    tree,
                    g,
                    child_nodes(tree, pl, SyntaxKind::LifetimeParam),
                    key,
                    ptr,
                );
            },
            None => {},
        }
    }
}

/// Children collected by a scan sit strictly below the scan bound and grow
/// strictly in tree order.
proof fn lemma_child_nodes_ascending(
    tree: crate::syntax::SyntaxTree,
    parent: u32,
    kind: SyntaxKind,
    n: int,
)
    requires
        n <= u32::MAX,
    ensures
        forall|a: int, b: int|
            0 <= a < b < child_nodes_upto(tree, parent, kind, n).len()
                ==> (#[trigger] child_nodes_upto(tree, parent, kind, n)[a]) < (
            #[trigger] child_nodes_upto(tree, parent, kind, n)[b]),
    decreases n,
{
    crate::syntax::lemma_child_nodes_upto_props(tree, parent, kind, n);
    if n > 0 {
        lemma_child_nodes_ascending(tree, parent, kind, n - 1);
        let prev = child_nodes_upto(tree, parent, kind, n - 1);
        let cur = child_nodes_upto(tree, parent, kind, n);
        crate::syntax::lemma_child_nodes_upto_props(tree, parent, kind, n - 1);
        assert forall|a: int, b: int|
            0 <= a < b < cur.len() implies (#[trigger] cur[a]) < (#[trigger] cur[b]) by {
            if b < prev.len() {
                assert(cur[a] == prev[a] && cur[b] == prev[b]);
            } else {
                assert(cur[a] == prev[a]);
                assert(prev[a] < n - 1);
            }
        }
    }
}

/// Field ordering: the variant's field list numbers fields in declaration
/// order, and the defining pointers grow in the same order.  The list is a
/// pure function of the database, so it does not depend on when any cache
/// was populated.
pub proof fn lemma_field_pairs_declaration_order(db: Database, v: VariantId)
    requires
        db.wf(),
        db.valid_variant(v),
    ensures
        s_variant_field_pairs(db, v).len() == s_variant_field_nodes(db, v).len(),
        forall|i: int|
            0 <= i < s_variant_field_pairs(db, v).len() ==> (#[trigger] s_variant_field_pairs(
                db,
                v,
            )[i]).0 == (crate::ids::FieldId { parent: v, local_id: i as u32 }),
        forall|i: int, j: int|
            0 <= i < j < s_variant_field_pairs(db, v).len() ==> (#[trigger] s_variant_field_pairs(
                db,
                v,
            )[i]).1.raw < (#[trigger] s_variant_field_pairs(db, v)[j]).1.raw,
{
    let loc = db.variant_loc(v);
    let tree = db.tree(loc.file_id);
    crate::has_source::lemma_variant_loc_valid(db, v);
    match crate::syntax::first_child(tree, loc.ptr.raw, SyntaxKind::RecordFieldList) {
        Some(rl) => {
            lemma_child_nodes_ascending(tree, rl, SyntaxKind::RecordField, tree.nodes.len() as int);
        },
        None => {
            match crate::syntax::first_child(tree, loc.ptr.raw, SyntaxKind::TupleFieldList) {
                Some(tl) => {
                    lemma_child_nodes_ascending(
                        tree,
                        tl,
                        SyntaxKind::TupleField,
                        tree.nodes.len() as int,
                    );
                },
                None => {},
            }
        },
    }
}

/// Detached file: a file that no module of any relevant crate declares and
/// that no `include!`-style invocation expands into owns the empty module
/// sequence — an answer, not a failure.
pub proof fn lemma_detached_file_empty(db: Database, f: FileId)
    requires
        db.wf(),
        db.valid_file(f),
        forall|c: CrateId, l: u32|
            db.valid_crate(c) && l < db.crates[c.0 as int].modules.len()
                ==> !s_module_declares_file(db, c, l, f),
        forall|c: int, k: int|
            0 <= c < db.crates.len() && 0 <= k < db.crates[c].include_invocations.len()
                ==> (#[trigger] db.crates[c].include_invocations[k]).1 != f,
    ensures
        s_file_to_modules(db, f).len() == 0,
{
    lemma_detached_upto(db, f, db.relevant_crates[f.0 as int].len() as int);
}

proof fn lemma_detached_upto(db: Database, f: FileId, n: int)
    requires
        db.wf(),
        db.valid_file(f),
        n <= db.relevant_crates[f.0 as int].len(),
        forall|c: CrateId, l: u32|
            db.valid_crate(c) && l < db.crates[c.0 as int].modules.len()
                ==> !s_module_declares_file(db, c, l, f),
        forall|c: int, k: int|
            0 <= c < db.crates.len() && 0 <= k < db.crates[c].include_invocations.len()
                ==> (#[trigger] db.crates[c].include_invocations[k]).1 != f,
    ensures
        s_file_to_modules_upto(db, f, n).len() == 0,
    decreases n,
{
    if n > 0 {
        lemma_detached_upto(db, f, n - 1);
        let c = db.relevant_crates[f.0 as int][n - 1];
        assert(db.valid_crate(c));
        lemma_no_declarer_empty(db, c, f, db.crates[c.0 as int].modules.len() as int);
        lemma_no_include_empty(db, c, f, db.crates[c.0 as int].include_invocations.len() as int);
    }
}

proof fn lemma_no_declarer_empty(db: Database, c: CrateId, f: FileId, n: int)
    requires
        db.valid_crate(c),
        n <= db.crates[c.0 as int].modules.len(),
        forall|l: u32| l < db.crates[c.0 as int].modules.len() ==> !s_module_declares_file(db, c, l, f),
    ensures
        s_crate_modules_upto(db, c, f, n).len() == 0,
    decreases n,
{
    if n > 0 {
        lemma_no_declarer_empty(db, c, f, n - 1);
        assert(!s_module_declares_file(db, c, (n - 1) as u32, f));
    }
}

proof fn lemma_no_include_empty(db: Database, c: CrateId, f: FileId, n: int)
    requires
        db.valid_crate(c),
        n <= db.crates[c.0 as int].include_invocations.len(),
        forall|k: int|
            0 <= k < db.crates[c.0 as int].include_invocations.len()
                ==> (#[trigger] db.crates[c.0 as int].include_invocations[k]).1 != f,
    ensures
        s_include_fallback_upto(db, c, f, n).len() == 0,
    decreases n,
{
    if n > 0 {
        lemma_no_include_empty(db, c, f, n - 1);
    }
}

/// Multi-module file: every module declaring a file appears in the
/// file-to-modules index, which lists what each crate contributes, crate by
/// crate, in discovery order.
pub proof fn lemma_multi_module_file(db: Database, f: FileId, k: int, local: u32)
    requires
        db.wf(),
        db.valid_file(f),
        0 <= k < db.relevant_crates[f.0 as int].len(),
        local < db.crates[db.relevant_crates[f.0 as int][k].0 as int].modules.len(),
        s_module_declares_file(db, db.relevant_crates[f.0 as int][k], local, f),
    ensures
        s_file_to_modules(db, f).contains(
            ModuleId { krate: db.relevant_crates[f.0 as int][k], local_id: local },
        ),
{
    let c = db.relevant_crates[f.0 as int][k];
    lemma_declarer_in_crate_modules(db, c, f, local, db.crates[c.0 as int].modules.len() as int);
    lemma_crate_part_in_upto(db, f, k, db.relevant_crates[f.0 as int].len() as int);
    let m = ModuleId { krate: c, local_id: local };
    assert(s_crate_modules_for_file(db, c, f).contains(m));
    assert(s_crate_contribution(db, c, f).contains(m));
    let idx = choose|i: int|
        0 <= i < s_crate_contribution(db, c, f).len() && s_crate_contribution(db, c, f)[i] == m;
    assert(s_file_to_modules(db, f)[s_file_to_modules_upto(db, f, k).len() + idx] == m);
}

proof fn lemma_declarer_in_crate_modules(db: Database, c: CrateId, f: FileId, local: u32, n: int)
    requires
        db.valid_crate(c),
        local < n,
        n <= db.crates[c.0 as int].modules.len(),
        s_module_declares_file(db, c, local, f),
    ensures
        s_crate_modules_upto(db, c, f, n).contains(ModuleId { krate: c, local_id: local }),
    decreases n,
{
    if local == n - 1 {
        assert(s_crate_modules_upto(db, c, f, n).last() == ModuleId { krate: c, local_id: local });
    } else {
        lemma_declarer_in_crate_modules(db, c, f, local, n - 1);
        let prev = s_crate_modules_upto(db, c, f, n - 1);
        let idx = choose|i: int| 0 <= i < prev.len() && prev[i] == ModuleId { krate: c, local_id: local };
        assert(s_crate_modules_upto(db, c, f, n)[idx] == ModuleId { krate: c, local_id: local });
    }
}

/// What one crate adds to the index stands, in order, inside the whole index.
proof fn lemma_crate_part_in_upto(db: Database, f: FileId, k: int, n: int)
    requires
        db.wf(),
        db.valid_file(f),
        0 <= k < n,
        n <= db.relevant_crates[f.0 as int].len(),
    ensures
        ({
            let c = db.relevant_crates[f.0 as int][k];
            let pre = s_file_to_modules_upto(db, f, k);
            let crate_part = s_crate_contribution(db, c, f);
            &&& s_file_to_modules_upto(db, f, n).len() >= pre.len() + crate_part.len()
            &&& forall|i: int|
                0 <= i < crate_part.len() ==> s_file_to_modules_upto(db, f, n)[pre.len() + i] == (
                #[trigger] crate_part[i])
        }),
    decreases n,
{
    let c = db.relevant_crates[f.0 as int][k];
    let pre = s_file_to_modules_upto(db, f, k);
    let crate_part = s_crate_contribution(db, c, f);
    if k == n - 1 {
        assert forall|i: int|
            0 <= i < crate_part.len() implies s_file_to_modules_upto(db, f, n)[pre.len() + i] == (
        #[trigger] crate_part[i]) by {
            assert(s_file_to_modules_upto(db, f, n) == pre + crate_part);
        }
    } else {
        lemma_crate_part_in_upto(db, f, k, n - 1);
        assert forall|i: int|
            0 <= i < crate_part.len() implies s_file_to_modules_upto(db, f, n)[pre.len() + i] == (
        #[trigger] crate_part[i]) by {
            assert(s_file_to_modules_upto(db, f, n) == s_file_to_modules_upto(db, f, n - 1)
                + s_crate_contribution(db, f_crate(db, f, n - 1), f));
            assert(s_file_to_modules_upto(db, f, n - 1)[pre.len() + i] == crate_part[i]);
        }
    }
}

/// The crate at one position of a file's relevant-crate list.
pub open spec fn f_crate(db: Database, f: FileId, k: int) -> CrateId {
    db.relevant_crates[f.0 as int][k]
}

/// Classification at a file root: a node standing directly under a real
/// file's root node is owned by the file's first owning module, since the
/// root itself is no container.
pub proof fn lemma_file_root_classification(db: Database, f: FileId, idx: u32)
    requires
        db.wf(),
        db.valid_file(f),
        idx < db.tree(HirFileId::File(f)).nodes.len(),
        db.tree(HirFileId::File(f)).nodes[idx as int].parent == Some(0u32),
        db.tree(HirFileId::File(f)).nodes[0].kind == SyntaxKind::SourceFile,
        s_file_to_modules(db, f).len() > 0,
    ensures
        s_find_container(db, InFile { file_id: HirFileId::File(f), value: idx })
            == Some(ChildContainer::ModuleId(s_file_to_modules(db, f)[0])),
{
    let n = InFile { file_id: HirFileId::File(f), value: idx };
    let root = InFile { file_id: HirFileId::File(f), value: 0u32 };
    assert(db.files[f.0 as int].wf());
    assert(s_parent_ancestor(db, n) == Some(root));
    assert(s_container_to_def(db, root) is None);
    assert(s_parent_ancestor(db, root) is None);
    assert(s_container_walk(db, root) is None);
    assert(s_container_walk(db, n) is None);
}

/// Round trip for top-level definitions: a definition declared directly
/// under its file's root resolves back to itself from its own defining
/// pointer, provided its module is the file's first owner (when several
/// modules own the file, resolution may legitimately pick the first) and
/// no later scope entry of the same kind shadows the pointer.
pub proof fn lemma_top_level_round_trip(db: Database, m: ModuleId, i: int, f: FileId)
    requires
        db.wf(),
        db.valid_module(m),
        0 <= i < db.module_data(m).scope.len(),
        forall|j: int|
            i < j < db.module_data(m).scope.len() ==> !(db.item_loc(
                #[trigger] db.module_data(m).scope[j],
            ).file_id == db.item_loc(db.module_data(m).scope[i]).file_id && s_item_key(
                db.module_data(m).scope[j],
            ) == s_item_key(db.module_data(m).scope[i]) && db.item_loc(
                db.module_data(m).scope[j],
            ).ptr == db.item_loc(db.module_data(m).scope[i]).ptr),
        db.valid_file(f),
        db.item_loc(db.module_data(m).scope[i]).file_id == HirFileId::File(f),
        db.tree(HirFileId::File(f)).nodes[db.item_loc(db.module_data(m).scope[i]).ptr.raw as int].parent
            == Some(0u32),
        db.tree(HirFileId::File(f)).nodes[0].kind == SyntaxKind::SourceFile,
        s_file_to_modules(db, f).len() > 0,
        s_file_to_modules(db, f)[0] == m,
    ensures
        ({
            let item = db.module_data(m).scope[i];
            let loc = db.item_loc(item);
            s_resolve(db, loc.file_id, loc.ptr, s_item_key(item)) == Some(s_item_value(item))
        }),
{
    let item = db.module_data(m).scope[i];
    let loc = db.item_loc(item);
    assert(db.wf_module(m.krate, db.module_data(m)));
    assert(db.valid_loc(loc));
    lemma_file_root_classification(db, f, loc.ptr.raw);
    lemma_children_round_trip(db, m, i);
}

} // verus!
