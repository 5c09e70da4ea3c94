//! Locations of semantic entities in surface syntax: modules, fields,
//! parameters, labels and macros, over the wrapped definition identifiers.
//!
//! A module is special: it has two source nodes at once, the defining file
//! or block (`definition_source`) and the declaring `mod` item
//! (`declaration_source`), so it does not implement `HasSource`.

use vstd::prelude::*;
use crate::FileId;
use crate::child_by_source::db_tree;
use crate::db::{Database, ItemLoc, ModuleOrigin};
use crate::ids::{
    ConstId, DefWithBodyId, EnumId, EnumVariantId, ExternCrateId, FunctionId, HirFileId, ImplId,
    LabelId, LifetimeParamId, MacroId, ModuleId, StaticId, StructId, TraitAliasId, TraitId,
    TypeAliasId, TypeOrConstParamId, UnionId, UseId, VariantId,
};
use crate::source_to_def::{body_of_ref, body_owner_loc_of};
use crate::src::HasSource;
use crate::syntax::{
    child_nodes, collect_child_nodes, collect_child_nodes2, find_first_child, first_child, AstPtr,
    InFile, SyntaxKind, TextRange,
};

verus! {

/// The syntax that defines a module: a whole source file, an inline
/// `mod` item, or an item-declaring block.
#[derive(Clone, Copy, PartialEq, Eq, Hash, Debug)]
pub enum ModuleSourcePtr {
    SourceFile(AstPtr),
    Module(AstPtr),
    BlockExpr(AstPtr),
}

/// A module of some crate's module tree.
#[derive(Clone, Copy, PartialEq, Eq, Hash, Debug, Structural)]
pub struct Module {
    pub id: ModuleId,
}

/// The node defining a module per its origin.
pub open spec fn s_definition_source(db: Database, m: ModuleId) -> InFile<ModuleSourcePtr> {
    match db.module_data(m).origin {
        ModuleOrigin::CrateRoot { definition } => InFile {
            file_id: HirFileId::File(definition),
            value: ModuleSourcePtr::SourceFile(
                AstPtr::spec_new(db.tree(HirFileId::File(definition)), 0),
            ),
        },
        ModuleOrigin::File { definition, .. } => InFile {
            file_id: HirFileId::File(definition),
            value: ModuleSourcePtr::SourceFile(
                AstPtr::spec_new(db.tree(HirFileId::File(definition)), 0),
            ),
        },
        ModuleOrigin::Inline { definition } => InFile {
            file_id: definition.file_id,
            value: ModuleSourcePtr::Module(definition.value),
        },
        ModuleOrigin::BlockExpr { definition, .. } => InFile {
            file_id: definition.file_id,
            value: ModuleSourcePtr::BlockExpr(definition.value),
        },
    }
}

/// The node declaring a module (`mod foo;` or `mod foo { .. }`), absent for
/// crate roots and block scopes.
pub open spec fn s_declaration_source(db: Database, m: ModuleId) -> Option<InFile<AstPtr>> {
    match db.module_data(m).origin {
        ModuleOrigin::File { declaration, .. } => Some(declaration),
        ModuleOrigin::Inline { definition } => Some(definition),
        _ => None,
    }
}

impl Module {
    /// The node which defines this module: a file or a `mod foo {}` with
    /// items.
    pub fn definition_source(self, db: &Database) -> (r: InFile<ModuleSourcePtr>)
        requires
            db.wf(),
            db.valid_module(self.id),
        ensures
            r == s_definition_source(*db, self.id),
    {
        let md = &db.crates[self.id.krate.0 as usize].modules[self.id.local_id as usize];
        proof {
            assert(db.wf_module(self.id.krate, db.module_data(self.id)));
        }
        match md.origin {
            ModuleOrigin::CrateRoot { definition } => {
                let f = HirFileId::File(definition);
                let tree = db_tree(db, f);
                InFile { file_id: f, value: ModuleSourcePtr::SourceFile(AstPtr::of_node(tree, 0)) }
            },
            ModuleOrigin::File { definition, .. } => {
                let f = HirFileId::File(definition);
                let tree = db_tree(db, f);
                InFile { file_id: f, value: ModuleSourcePtr::SourceFile(AstPtr::of_node(tree, 0)) }
            },
            ModuleOrigin::Inline { definition } => InFile {
                file_id: definition.file_id,
                value: ModuleSourcePtr::Module(definition.value),
            },
            ModuleOrigin::BlockExpr { definition, .. } => InFile {
                file_id: definition.file_id,
                value: ModuleSourcePtr::BlockExpr(definition.value),
            },
        }
    }

    /// The text range of the node which defines this module.
    pub fn definition_source_range(self, db: &Database) -> (r: InFile<TextRange>)
        requires
            db.wf(),
            db.valid_module(self.id),
        ensures
            r.file_id == s_definition_source(*db, self.id).file_id,
            r.value == db.tree(r.file_id).nodes[match s_definition_source(*db, self.id).value {
                ModuleSourcePtr::SourceFile(p) => p.raw as int,
                ModuleSourcePtr::Module(p) => p.raw as int,
                ModuleSourcePtr::BlockExpr(p) => p.raw as int,
            }].range,
    {
        proof {
            assert(db.wf_module(self.id.krate, db.module_data(self.id)));
        }
        let src = self.definition_source(db);
        let tree = db_tree(db, src.file_id);
        let idx = match src.value {
            ModuleSourcePtr::SourceFile(p) => p.raw,
            ModuleSourcePtr::Module(p) => p.raw,
            ModuleSourcePtr::BlockExpr(p) => p.raw,
        };
        InFile { file_id: src.file_id, value: tree.nodes[idx as usize].range }
    }

    /// The file identity of the node which defines this module.
    pub fn definition_source_file_id(self, db: &Database) -> (r: HirFileId)
        requires
            db.wf(),
            db.valid_module(self.id),
        ensures
            r == s_definition_source(*db, self.id).file_id,
    {
        let md = &db.crates[self.id.krate.0 as usize].modules[self.id.local_id as usize];
        match md.origin {
            ModuleOrigin::CrateRoot { definition } => HirFileId::File(definition),
            ModuleOrigin::File { definition, .. } => HirFileId::File(definition),
            ModuleOrigin::Inline { definition } => definition.file_id,
            ModuleOrigin::BlockExpr { definition, .. } => definition.file_id,
        }
    }

    /// Whether the module's defining file is a `mod.rs`-style file.
    pub fn is_mod_rs(self, db: &Database) -> (r: bool)
        requires
            db.wf(),
            db.valid_module(self.id),
        ensures
            r == match db.module_data(self.id).origin {
                ModuleOrigin::File { is_mod_rs, .. } => is_mod_rs,
                _ => false,
            },
    {
        let md = &db.crates[self.id.krate.0 as usize].modules[self.id.local_id as usize];
        match md.origin {
            ModuleOrigin::File { is_mod_rs, .. } => is_mod_rs,
            _ => false,
        }
    }

    /// The module's own source file, if it is defined by a whole file.
    pub fn as_source_file_id(self, db: &Database) -> (r: Option<FileId>)
        requires
            db.wf(),
            db.valid_module(self.id),
        ensures
            r == match db.module_data(self.id).origin {
                ModuleOrigin::File { definition, .. } => Some(definition),
                ModuleOrigin::CrateRoot { definition } => Some(definition),
                _ => None::<FileId>,
            },
    {
        let md = &db.crates[self.id.krate.0 as usize].modules[self.id.local_id as usize];
        match md.origin {
            ModuleOrigin::File { definition, .. } => Some(definition),
            ModuleOrigin::CrateRoot { definition } => Some(definition),
            _ => None,
        }
    }

    /// Whether the module is written inline rather than in its own file.
    pub fn is_inline(self, db: &Database) -> (r: bool)
        requires
            db.wf(),
            db.valid_module(self.id),
        ensures
            r == match db.module_data(self.id).origin {
                ModuleOrigin::Inline { .. } => true,
                ModuleOrigin::BlockExpr { .. } => true,
                _ => false,
            },
    {
        let md = &db.crates[self.id.krate.0 as usize].modules[self.id.local_id as usize];
        match md.origin {
            ModuleOrigin::Inline { .. } => true,
            ModuleOrigin::BlockExpr { .. } => true,
            _ => false,
        }
    }

    /// The node which declares this module; `None` for the crate root.
    pub fn declaration_source(self, db: &Database) -> (r: Option<InFile<AstPtr>>)
        requires
            db.wf(),
            db.valid_module(self.id),
        ensures
            r == s_declaration_source(*db, self.id),
    {
        let md = &db.crates[self.id.krate.0 as usize].modules[self.id.local_id as usize];
        match md.origin {
            ModuleOrigin::File { declaration, .. } => Some(declaration),
            ModuleOrigin::Inline { definition } => Some(definition),
            _ => None,
        }
    }

    /// The text range of the declaring node; `None` for the crate root.
    pub fn declaration_source_range(self, db: &Database) -> (r: Option<InFile<TextRange>>)
        requires
            db.wf(),
            db.valid_module(self.id),
        ensures
            match s_declaration_source(*db, self.id) {
                Some(d) => r == Some(
                    InFile {
                        file_id: d.file_id,
                        value: db.tree(d.file_id).nodes[d.value.raw as int].range,
                    },
                ),
                None => r is None,
            },
    {
        proof {
            assert(db.wf_module(self.id.krate, db.module_data(self.id)));
        }
        match self.declaration_source(db) {
            None => None,
            Some(d) => {
                let tree = db_tree(db, d.file_id);
                Some(InFile { file_id: d.file_id, value: tree.nodes[d.value.raw as usize].range })
            },
        }
    }
}

/// A generic-parameter owner's recorded location is a real node.
pub proof fn lemma_generic_def_loc_valid(db: Database, g: crate::ids::GenericDefId)
    requires
        db.wf(),
        db.valid_generic_def(g),
    ensures
        db.valid_loc(db.generic_def_loc(g)),
{
    match g {
        crate::ids::GenericDefId::FunctionId(id) => {
            assert(db.valid_loc(db.item_loc(crate::db::ItemId::FunctionId(id))));
        },
        crate::ids::GenericDefId::AdtId(crate::ids::AdtId::StructId(id)) => {
            assert(db.valid_loc(db.item_loc(crate::db::ItemId::StructId(id))));
        },
        crate::ids::GenericDefId::AdtId(crate::ids::AdtId::UnionId(id)) => {
            assert(db.valid_loc(db.item_loc(crate::db::ItemId::UnionId(id))));
        },
        crate::ids::GenericDefId::AdtId(crate::ids::AdtId::EnumId(id)) => {
            assert(db.valid_loc(db.item_loc(crate::db::ItemId::EnumId(id))));
        },
        crate::ids::GenericDefId::TraitId(id) => {
            assert(db.valid_loc(db.item_loc(crate::db::ItemId::TraitId(id))));
        },
        crate::ids::GenericDefId::TraitAliasId(id) => {
            assert(db.valid_loc(db.item_loc(crate::db::ItemId::TraitAliasId(id))));
        },
        crate::ids::GenericDefId::TypeAliasId(id) => {
            assert(db.valid_loc(db.item_loc(crate::db::ItemId::TypeAliasId(id))));
        },
        crate::ids::GenericDefId::ImplId(id) => {
            assert(db.valid_loc(db.item_loc(crate::db::ItemId::ImplId(id))));
        },
        crate::ids::GenericDefId::ConstId(id) => {
            assert(db.valid_loc(db.item_loc(crate::db::ItemId::ConstId(id))));
        },
    }
}

/// A variant's recorded location is a real node.
pub proof fn lemma_variant_loc_valid(db: Database, v: VariantId)
    requires
        db.wf(),
        db.valid_variant(v),
    ensures
        db.valid_loc(db.variant_loc(v)),
{
    match v {
        VariantId::EnumVariantId(id) => {
            assert(db.valid_loc(db.enum_variants[id.0 as int].loc));
        },
        VariantId::StructId(id) => {
            assert(db.valid_loc(db.item_loc(crate::db::ItemId::StructId(id))));
        },
        VariantId::UnionId(id) => {
            assert(db.valid_loc(db.item_loc(crate::db::ItemId::UnionId(id))));
        },
    }
}

/// A container whose children each have their own defining syntax, as an
/// ordered list of (child id, pointer) pairs.
pub trait HasChildSource<ChildId>: Sized + Copy {
    spec fn cs_valid(self, db: Database) -> bool;

    /// The file the children's pointers live in.
    spec fn cs_file(self, db: Database) -> HirFileId;

    /// The children in declaration order, each with its defining pointer.
    spec fn cs_pairs(self, db: Database) -> Seq<(ChildId, AstPtr)>;

    fn child_source(self, db: &Database) -> (r: InFile<Vec<(ChildId, AstPtr)>>)
        requires
            db.wf(),
            self.cs_valid(*db),
        ensures
            r.file_id == self.cs_file(*db),
            r.value@ == self.cs_pairs(*db),
    ;
}

/// The field-declaring nodes of a variant, in declaration order: the
/// children of its record or tuple field list.
pub open spec fn s_variant_field_nodes(db: Database, v: VariantId) -> Seq<u32> {
    let loc = db.variant_loc(v);
    let tree = db.tree(loc.file_id);
    match first_child(tree, loc.ptr.raw, SyntaxKind::RecordFieldList) {
        Some(rl) => child_nodes(tree, rl, SyntaxKind::RecordField),
        None => match first_child(tree, loc.ptr.raw, SyntaxKind::TupleFieldList) {
            Some(tl) => child_nodes(tree, tl, SyntaxKind::TupleField),
            None => Seq::empty(),
        },
    }
}

/// Field ids zipped with their defining pointers, in declaration order.
/// The numbering equals the lowered field order because field lowering
/// walks the same children in the same order.
pub open spec fn s_variant_field_pairs(db: Database, v: VariantId) -> Seq<
    (crate::ids::FieldId, AstPtr),
> {
    let loc = db.variant_loc(v);
    let tree = db.tree(loc.file_id);
    let nodes = s_variant_field_nodes(db, v);
    Seq::new(
        nodes.len(),
        |i: int|
            (
                crate::ids::FieldId { parent: v, local_id: i as u32 },
                AstPtr::spec_new(tree, nodes[i]),
            ),
    )
}

impl HasChildSource<crate::ids::FieldId> for VariantId {
    open spec fn cs_valid(self, db: Database) -> bool {
        db.valid_variant(self)
    }

    open spec fn cs_file(self, db: Database) -> HirFileId {
        db.variant_loc(self).file_id
    }

    open spec fn cs_pairs(self, db: Database) -> Seq<(crate::ids::FieldId, AstPtr)> {
        s_variant_field_pairs(db, self)
    }

    #[verifier::loop_isolation(false)]
    fn child_source(self, db: &Database) -> (r: InFile<Vec<(crate::ids::FieldId, AstPtr)>>) {
        let loc = crate::child_by_source::variant_loc_of(db, self);
        proof {
            lemma_variant_loc_valid(*db, self);
        }
        let tree = db_tree(db, loc.file_id);
        let nodes: Vec<u32> = match find_first_child(tree, loc.ptr.raw, SyntaxKind::RecordFieldList) {
            Some(rl) => collect_child_nodes(tree, rl, SyntaxKind::RecordField),
            None => match find_first_child(tree, loc.ptr.raw, SyntaxKind::TupleFieldList) {
                Some(tl) => collect_child_nodes(tree, tl, SyntaxKind::TupleField),
                None => Vec::new(),
            },
        };
        proof {
            assert(nodes@ =~= s_variant_field_nodes(*db, self));
        }
        let mut pairs: Vec<(crate::ids::FieldId, AstPtr)> = Vec::new();
        let mut i: usize = 0;
        while i < nodes.len()
            invariant
                0 <= i <= nodes.len(),
                pairs@.len() == i,
                forall|k: int|
                    0 <= k < i ==> #[trigger] pairs@[k] == (
                        crate::ids::FieldId { parent: self, local_id: k as u32 },
                        AstPtr::spec_new(db.tree(loc.file_id), nodes@[k]),
                    ),
                forall|k: int| 0 <= k < nodes@.len() ==> (#[trigger] nodes@[k]) < tree.nodes.len(),
            decreases nodes.len() - i,
        {
            let ptr = AstPtr::of_node(tree, nodes[i]);
            pairs.push((crate::ids::FieldId { parent: self, local_id: i as u32 }, ptr));
            i += 1;
        }
        proof {
            assert(pairs@ =~= s_variant_field_pairs(*db, self));
        }
        InFile { file_id: loc.file_id, value: pairs }
    }
}

/// The explicitly written type and const parameter nodes of a definition,
/// in declaration order.
pub open spec fn s_toc_explicit_nodes(db: Database, g: crate::ids::GenericDefId) -> Seq<u32> {
    let loc = db.generic_def_loc(g);
    let tree = db.tree(loc.file_id);
    match first_child(tree, loc.ptr.raw, SyntaxKind::GenericParamList) {
        Some(pl) => crate::syntax::child_nodes2(
            tree,
            pl,
            SyntaxKind::TypeParam,
            SyntaxKind::ConstParam,
        ),
        None => Seq::empty(),
    }
}

/// How many written type or const parameters carry lowered numbers.
pub open spec fn s_toc_explicit_count(db: Database, g: crate::ids::GenericDefId) -> int {
    let base: int = if crate::child_by_source::s_has_implicit_self(g) {
        1
    } else {
        0
    };
    let n_toc = db.generic_def_params(g).n_type_or_consts as int;
    let avail = n_toc - base;
    let nodes = s_toc_explicit_nodes(db, g);
    if avail <= 0 {
        0
    } else if nodes.len() <= avail {
        nodes.len() as int
    } else {
        avail
    }
}

/// Type and const parameters with their defining pointers: for traits and
/// trait aliases the implicit `Self` parameter comes first, associated with
/// the declaration node itself; the written parameters follow, zipped with
/// the lowered numbering.
pub open spec fn s_toc_child_pairs(db: Database, g: crate::ids::GenericDefId) -> Seq<
    (TypeOrConstParamId, AstPtr),
> {
    let loc = db.generic_def_loc(g);
    let tree = db.tree(loc.file_id);
    let has_self = crate::child_by_source::s_has_implicit_self(g);
    let base: int = if has_self {
        1
    } else {
        0
    };
    let selfpart: Seq<(TypeOrConstParamId, AstPtr)> = if has_self && db.generic_def_params(
        g,
    ).n_type_or_consts >= 1 {
        seq![(TypeOrConstParamId { parent: g, local_id: 0 }, loc.ptr)]
    } else {
        Seq::empty()
    };
    let nodes = s_toc_explicit_nodes(db, g);
    selfpart + Seq::new(
        s_toc_explicit_count(db, g) as nat,
        |i: int|
            (
                TypeOrConstParamId { parent: g, local_id: (base + i) as u32 },
                AstPtr::spec_new(tree, nodes[i]),
            ),
    )
}

impl HasChildSource<TypeOrConstParamId> for crate::ids::GenericDefId {
    open spec fn cs_valid(self, db: Database) -> bool {
        db.valid_generic_def(self)
    }

    open spec fn cs_file(self, db: Database) -> HirFileId {
        db.generic_def_loc(self).file_id
    }

    open spec fn cs_pairs(self, db: Database) -> Seq<(TypeOrConstParamId, AstPtr)> {
        s_toc_child_pairs(db, self)
    }

    #[verifier::loop_isolation(false)]
    fn child_source(self, db: &Database) -> (r: InFile<Vec<(TypeOrConstParamId, AstPtr)>>) {
        let loc = crate::child_by_source::generic_def_loc_of(db, self);
        let params = generic_params_of(db, self);
        let has_self = match self {
            crate::ids::GenericDefId::TraitId(_) => true,
            crate::ids::GenericDefId::TraitAliasId(_) => true,
            _ => false,
        };
        let base: usize = if has_self {
            1
        } else {
            0
        };
        let mut pairs: Vec<(TypeOrConstParamId, AstPtr)> = Vec::new();
        if has_self && params.n_type_or_consts >= 1 {
            pairs.push((TypeOrConstParamId { parent: self, local_id: 0 }, loc.ptr));
        }
        let ghost selflen = pairs@.len();
        proof {
            lemma_generic_def_loc_valid(*db, self);
        }
        let tree = db_tree(db, loc.file_id);
        let nodes: Vec<u32> = match find_first_child(tree, loc.ptr.raw, SyntaxKind::GenericParamList) {
            Some(pl) => collect_child_nodes2(tree, pl, SyntaxKind::TypeParam, SyntaxKind::ConstParam),
            None => Vec::new(),
        };
        proof {
            assert(nodes@ =~= s_toc_explicit_nodes(*db, self));
        }
        let avail: usize = if (params.n_type_or_consts as usize) > base {
            (params.n_type_or_consts as usize) - base
        } else {
            0
        };
        let m: usize = if nodes.len() <= avail {
            nodes.len()
        } else {
            avail
        };
        proof {
            assert(m as int == s_toc_explicit_count(*db, self));
        }
        let mut i: usize = 0;
        while i < m
            invariant
                0 <= i <= m,
                m <= nodes.len(),
                pairs@.len() == selflen + i,
                forall|k: int|
                    selflen <= k < selflen + i ==> #[trigger] pairs@[k] == (
                        TypeOrConstParamId {
                            parent: self,
                            local_id: (base + (k - selflen)) as u32,
                        },
                        AstPtr::spec_new(db.tree(loc.file_id), nodes@[k - selflen]),
                    ),
                forall|k: int|
                    0 <= k < selflen ==> #[trigger] pairs@[k] == s_toc_child_pairs(*db, self)[k],
                forall|k: int| 0 <= k < nodes@.len() ==> (#[trigger] nodes@[k]) < tree.nodes.len(),
            decreases m - i,
        {
            let ptr = AstPtr::of_node(tree, nodes[i]);
            pairs.push(
                (TypeOrConstParamId { parent: self, local_id: (base + i) as u32 }, ptr),
            );
            i += 1;
        }
        proof {
            assert(pairs@ =~= s_toc_child_pairs(*db, self));
        }
        InFile { file_id: loc.file_id, value: pairs }
    }
}

/// The written lifetime parameter nodes of a definition.
pub open spec fn s_lifetime_nodes(db: Database, g: crate::ids::GenericDefId) -> Seq<u32> {
    let loc = db.generic_def_loc(g);
    let tree = db.tree(loc.file_id);
    match first_child(tree, loc.ptr.raw, SyntaxKind::GenericParamList) {
        Some(pl) => child_nodes(tree, pl, SyntaxKind::LifetimeParam),
        None => Seq::empty(),
    }
}

pub open spec fn s_lifetime_count(db: Database, g: crate::ids::GenericDefId) -> int {
    let n_lt = db.generic_def_params(g).n_lifetimes as int;
    let nodes = s_lifetime_nodes(db, g);
    if nodes.len() <= n_lt {
        nodes.len() as int
    } else {
        n_lt
    }
}

/// Lifetime parameters with their defining pointers, zipped with the
/// lowered numbering.
pub open spec fn s_lifetime_child_pairs(db: Database, g: crate::ids::GenericDefId) -> Seq<
    (LifetimeParamId, AstPtr),
> {
    let loc = db.generic_def_loc(g);
    let tree = db.tree(loc.file_id);
    let nodes = s_lifetime_nodes(db, g);
    Seq::new(
        s_lifetime_count(db, g) as nat,
        |i: int|
            (
                LifetimeParamId { parent: g, local_id: i as u32 },
                AstPtr::spec_new(tree, nodes[i]),
            ),
    )
}

impl HasChildSource<LifetimeParamId> for crate::ids::GenericDefId {
    open spec fn cs_valid(self, db: Database) -> bool {
        db.valid_generic_def(self)
    }

    open spec fn cs_file(self, db: Database) -> HirFileId {
        db.generic_def_loc(self).file_id
    }

    open spec fn cs_pairs(self, db: Database) -> Seq<(LifetimeParamId, AstPtr)> {
        s_lifetime_child_pairs(db, self)
    }

    #[verifier::loop_isolation(false)]
    fn child_source(self, db: &Database) -> (r: InFile<Vec<(LifetimeParamId, AstPtr)>>) {
        let loc = crate::child_by_source::generic_def_loc_of(db, self);
        let params = generic_params_of(db, self);
        proof {
            lemma_generic_def_loc_valid(*db, self);
        }
        let tree = db_tree(db, loc.file_id);
        let nodes: Vec<u32> = match find_first_child(tree, loc.ptr.raw, SyntaxKind::GenericParamList) {
            Some(pl) => collect_child_nodes(tree, pl, SyntaxKind::LifetimeParam),
            None => Vec::new(),
        };
        proof {
            assert(nodes@ =~= s_lifetime_nodes(*db, self));
        }
        let m: usize = if nodes.len() <= (params.n_lifetimes as usize) {
            nodes.len()
        } else {
            params.n_lifetimes as usize
        };
        proof {
            assert(m as int == s_lifetime_count(*db, self));
        }
        let mut pairs: Vec<(LifetimeParamId, AstPtr)> = Vec::new();
        let mut i: usize = 0;
        while i < m
            invariant
                0 <= i <= m,
                m <= nodes.len(),
                pairs@.len() == i,
                forall|k: int|
                    0 <= k < i ==> #[trigger] pairs@[k] == (
                        LifetimeParamId { parent: self, local_id: k as u32 },
                        AstPtr::spec_new(db.tree(loc.file_id), nodes@[k]),
                    ),
                forall|k: int| 0 <= k < nodes@.len() ==> (#[trigger] nodes@[k]) < tree.nodes.len(),
            decreases m - i,
        {
            let ptr = AstPtr::of_node(tree, nodes[i]);
            pairs.push((LifetimeParamId { parent: self, local_id: i as u32 }, ptr));
            i += 1;
        }
        proof {
            assert(pairs@ =~= s_lifetime_child_pairs(*db, self));
        }
        InFile { file_id: loc.file_id, value: pairs }
    }
}

/// Use trees of a `use` declaration, in the flattened order recorded at
/// item-tree construction.
pub open spec fn s_use_child_pairs(db: Database, u: UseId) -> Seq<
    (crate::ids::UseTreeIdx, AstPtr),
> {
    let trees = db.uses[u.0 as int].use_trees@;
    Seq::new(trees.len(), |i: int| (crate::ids::UseTreeIdx(i as u32), trees[i]))
}

impl HasChildSource<crate::ids::UseTreeIdx> for UseId {
    open spec fn cs_valid(self, db: Database) -> bool {
        self.0 < db.uses.len()
    }

    open spec fn cs_file(self, db: Database) -> HirFileId {
        db.uses[self.0 as int].loc.file_id
    }

    open spec fn cs_pairs(self, db: Database) -> Seq<(crate::ids::UseTreeIdx, AstPtr)> {
        s_use_child_pairs(db, self)
    }

    #[verifier::loop_isolation(false)]
    fn child_source(self, db: &Database) -> (r: InFile<Vec<(crate::ids::UseTreeIdx, AstPtr)>>) {
        let u = &db.uses[self.0 as usize];
        let mut pairs: Vec<(crate::ids::UseTreeIdx, AstPtr)> = Vec::new();
        let mut i: usize = 0;
        while i < u.use_trees.len()
            invariant
                0 <= i <= u.use_trees.len(),
                pairs@.len() == i,
                forall|k: int|
                    0 <= k < i ==> #[trigger] pairs@[k] == (
                        crate::ids::UseTreeIdx(k as u32),
                        u.use_trees@[k],
                    ),
            decreases u.use_trees.len() - i,
        {
            pairs.push((crate::ids::UseTreeIdx(i as u32), u.use_trees[i]));
            i += 1;
        }
        proof {
            assert(u.use_trees@.len() <= u32::MAX) by {
                assert(db.wf_items());
            }
            assert(pairs@ =~= s_use_child_pairs(*db, self));
        }
        InFile { file_id: u.loc.file_id, value: pairs }
    }
}

fn generic_params_of(db: &Database, g: crate::ids::GenericDefId) -> (r: crate::db::GenericParams)
    requires
        db.valid_generic_def(g),
    ensures
        r == db.generic_def_params(g),
{
    match g {
        crate::ids::GenericDefId::FunctionId(id) => db.functions[id.0 as usize].generics,
        crate::ids::GenericDefId::AdtId(crate::ids::AdtId::StructId(id)) => db.structs[
            id.0 as usize
        ].generics,
        crate::ids::GenericDefId::AdtId(crate::ids::AdtId::UnionId(id)) => db.unions[
            id.0 as usize
        ].generics,
        crate::ids::GenericDefId::AdtId(crate::ids::AdtId::EnumId(id)) => db.enums[
            id.0 as usize
        ].generics,
        crate::ids::GenericDefId::TraitId(id) => db.traits[id.0 as usize].generics,
        crate::ids::GenericDefId::TraitAliasId(id) => db.trait_aliases[id.0 as usize].generics,
        crate::ids::GenericDefId::TypeAliasId(id) => db.type_aliases[id.0 as usize].generics,
        crate::ids::GenericDefId::ImplId(id) => db.impls[id.0 as usize].generics,
        crate::ids::GenericDefId::ConstId(id) => db.consts[id.0 as usize].generics,
    }
}

/// One field of a variant.
#[derive(Clone, Copy, PartialEq, Eq, Hash, Debug, Structural)]
pub struct Field {
    pub parent: VariantId,
    pub id: u32,
}

/// The defining node of a field: its position in the variant's field list.
pub open spec fn s_field_source(db: Database, f: Field) -> Option<InFile<AstPtr>> {
    let pairs = s_variant_field_pairs(db, f.parent);
    if f.id < pairs.len() {
        Some(InFile { file_id: db.variant_loc(f.parent).file_id, value: pairs[f.id as int].1 })
    } else {
        None
    }
}

impl Field {
    pub fn source(self, db: &Database) -> (r: Option<InFile<AstPtr>>)
        requires
            db.wf(),
            db.valid_variant(self.parent),
        ensures
            r == s_field_source(*db, self),
    {
        let pairs = self.parent.child_source(db);
        if (self.id as usize) < pairs.value.len() {
            let e = pairs.value[self.id as usize];
            Some(InFile { file_id: pairs.file_id, value: e.1 })
        } else {
            None
        }
    }
}

/// First pointer recorded for a type or const parameter id.
pub open spec fn s_find_toc_pair(s: Seq<(TypeOrConstParamId, AstPtr)>, id: TypeOrConstParamId, i: int) -> Option<AstPtr>
    decreases s.len() - i,
{
    if i < 0 || i >= s.len() {
        None
    } else if s[i].0 == id {
        Some(s[i].1)
    } else {
        s_find_toc_pair(s, id, i + 1)
    }
}

/// A type or const generic parameter.
#[derive(Clone, Copy, PartialEq, Eq, Hash, Debug, Structural)]
pub struct TypeOrConstParam {
    pub id: TypeOrConstParamId,
}

impl TypeOrConstParam {
    /// The parameter's defining node: the written parameter, or the owning
    /// trait's own declaration for the implicit `Self`.
    #[verifier::loop_isolation(false)]
    pub fn source(self, db: &Database) -> (r: Option<InFile<AstPtr>>)
        requires
            db.wf(),
            db.valid_generic_def(self.id.parent),
        ensures
            r == match s_find_toc_pair(s_toc_child_pairs(*db, self.id.parent), self.id, 0) {
                Some(p) => Some(
                    InFile { file_id: db.generic_def_loc(self.id.parent).file_id, value: p },
                ),
                None => None::<InFile<AstPtr>>,
            },
    {
        let pairs = <crate::ids::GenericDefId as HasChildSource<TypeOrConstParamId>>::child_source(
            self.id.parent,
            db,
        );
        let mut i: usize = 0;
        while i < pairs.value.len()
            invariant
                0 <= i <= pairs.value.len(),
                s_find_toc_pair(pairs.value@, self.id, 0) == s_find_toc_pair(
                    pairs.value@,
                    self.id,
                    i as int,
                ),
            decreases pairs.value.len() - i,
        {
            let e = pairs.value[i];
            if e.0 == self.id {
                return Some(InFile { file_id: pairs.file_id, value: e.1 });
            }
            i += 1;
        }
        None
    }
}

/// First pointer recorded for a lifetime parameter id.
pub open spec fn s_find_lt_pair(s: Seq<(LifetimeParamId, AstPtr)>, id: LifetimeParamId, i: int) -> Option<AstPtr>
    decreases s.len() - i,
{
    if i < 0 || i >= s.len() {
        None
    } else if s[i].0 == id {
        Some(s[i].1)
    } else {
        s_find_lt_pair(s, id, i + 1)
    }
}

/// A lifetime generic parameter.
#[derive(Clone, Copy, PartialEq, Eq, Hash, Debug, Structural)]
pub struct LifetimeParam {
    pub id: LifetimeParamId,
}

impl LifetimeParam {
    #[verifier::loop_isolation(false)]
    pub fn source(self, db: &Database) -> (r: Option<InFile<AstPtr>>)
        requires
            db.wf(),
            db.valid_generic_def(self.id.parent),
        ensures
            r == match s_find_lt_pair(s_lifetime_child_pairs(*db, self.id.parent), self.id, 0) {
                Some(p) => Some(
                    InFile { file_id: db.generic_def_loc(self.id.parent).file_id, value: p },
                ),
                None => None::<InFile<AstPtr>>,
            },
    {
        let pairs = <crate::ids::GenericDefId as HasChildSource<LifetimeParamId>>::child_source(
            self.id.parent,
            db,
        );
        let mut i: usize = 0;
        while i < pairs.value.len()
            invariant
                0 <= i <= pairs.value.len(),
                s_find_lt_pair(pairs.value@, self.id, 0) == s_find_lt_pair(
                    pairs.value@,
                    self.id,
                    i as int,
                ),
            decreases pairs.value.len() - i,
        {
            let e = pairs.value[i];
            if e.0 == self.id {
                return Some(InFile { file_id: pairs.file_id, value: e.1 });
            }
            i += 1;
        }
        None
    }
}

/// A local binding together with its defining syntax, as body lowering
/// recorded it.
#[derive(Clone, Copy, PartialEq, Eq, Hash, Debug)]
pub struct LocalSource {
    pub source: InFile<AstPtr>,
}

impl LocalSource {
    pub fn source(self, _db: &Database) -> (r: Option<InFile<AstPtr>>)
        ensures
            r == Some(self.source),
    {
        Some(self.source)
    }
}

/// What a call resolves to, as far as parameter sourcing cares.
#[derive(Clone, Copy, PartialEq, Eq, Hash, Debug, Structural)]
pub enum CallableDefId {
    FunctionId(FunctionId),
    StructId(StructId),
    EnumVariantId(EnumVariantId),
}

/// The callee owning a parameter: a named callable, a closure, or
/// something whose parameters have no syntax.
#[derive(Clone, Copy, PartialEq, Eq, Hash, Debug, Structural)]
pub enum Callee {
    Def(CallableDefId),
    Closure(crate::ids::ClosureId),
    Other,
}

/// One value parameter of a callable, by position (`self` counts as
/// position zero when present).
#[derive(Clone, Copy, PartialEq, Eq, Hash, Debug, Structural)]
pub struct Param {
    pub func: Callee,
    pub idx: usize,
}

pub open spec fn s_param_valid(db: Database, p: Param) -> bool {
    match p.func {
        Callee::Def(CallableDefId::FunctionId(f)) => f.0 < db.functions.len(),
        Callee::Def(_) => true,
        Callee::Closure(c) => c.0 < db.closures.len() && db.valid_body_owner(
            db.closures[c.0 as int].0,
        ),
        Callee::Other => true,
    }
}

/// The defining node of a parameter: the n-th parameter of the function's
/// or closure's written parameter list, shifted past a `self` parameter.
pub open spec fn s_param_source(db: Database, p: Param) -> Option<InFile<AstPtr>> {
    match p.func {
        Callee::Def(CallableDefId::FunctionId(f)) => {
            let loc = db.functions[f.0 as int].loc;
            let tree = db.tree(loc.file_id);
            match first_child(tree, loc.ptr.raw, SyntaxKind::ParamList) {
                None => None,
                Some(pl) => {
                    let selfs = child_nodes(tree, pl, SyntaxKind::SelfParam);
                    let params = child_nodes(tree, pl, SyntaxKind::Param);
                    if selfs.len() > 0 {
                        if p.idx == 0 {
                            Some(
                                InFile {
                                    file_id: loc.file_id,
                                    value: AstPtr::spec_new(tree, selfs[0]),
                                },
                            )
                        } else if p.idx - 1 < params.len() {
                            Some(
                                InFile {
                                    file_id: loc.file_id,
                                    value: AstPtr::spec_new(tree, params[p.idx - 1]),
                                },
                            )
                        } else {
                            None
                        }
                    } else {
                        if p.idx < params.len() {
                            Some(
                                InFile {
                                    file_id: loc.file_id,
                                    value: AstPtr::spec_new(tree, params[p.idx as int]),
                                },
                            )
                        } else {
                            None
                        }
                    }
                },
            }
        },
        Callee::Closure(c) => {
            let owner = db.closures[c.0 as int].0;
            let expr = db.closures[c.0 as int].1;
            let bloc = db.body_owner_loc(owner);
            let body = db.body_of(owner);
            if expr < body.exprs.len() {
                match body.exprs[expr as int] {
                    Some(eptr) => {
                        if eptr.kind == SyntaxKind::ClosureExpr {
                            let tree = db.tree(bloc.file_id);
                            match first_child(tree, eptr.raw, SyntaxKind::ParamList) {
                                None => None,
                                Some(pl) => {
                                    let params = child_nodes(tree, pl, SyntaxKind::Param);
                                    if p.idx < params.len() {
                                        Some(
                                            InFile {
                                                file_id: bloc.file_id,
                                                value: AstPtr::spec_new(
                                                    tree,
                                                    params[p.idx as int],
                                                ),
                                            },
                                        )
                                    } else {
                                        None
                                    }
                                },
                            }
                        } else {
                            None
                        }
                    },
                    None => None,
                }
            } else {
                None
            }
        },
        _ => None,
    }
}

impl Param {
    pub fn source(self, db: &Database) -> (r: Option<InFile<AstPtr>>)
        requires
            db.wf(),
            s_param_valid(*db, self),
        ensures
            r == s_param_source(*db, self),
    {
        match self.func {
            Callee::Def(CallableDefId::FunctionId(f)) => {
                let loc = db.functions[f.0 as usize].loc;
                proof {
                    assert(db.valid_loc(db.item_loc(crate::db::ItemId::FunctionId(f))));
                }
                let tree = db_tree(db, loc.file_id);
                match find_first_child(tree, loc.ptr.raw, SyntaxKind::ParamList) {
                    None => None,
                    Some(pl) => {
                        let selfs = collect_child_nodes(tree, pl, SyntaxKind::SelfParam);
                        let params = collect_child_nodes(tree, pl, SyntaxKind::Param);
                        if selfs.len() > 0 {
                            if self.idx == 0 {
                                Some(
                                    InFile {
                                        file_id: loc.file_id,
                                        value: AstPtr::of_node(tree, selfs[0]),
                                    },
                                )
                            } else if self.idx - 1 < params.len() {
                                Some(
                                    InFile {
                                        file_id: loc.file_id,
                                        value: AstPtr::of_node(tree, params[self.idx - 1]),
                                    },
                                )
                            } else {
                                None
                            }
                        } else {
                            if self.idx < params.len() {
                                Some(
                                    InFile {
                                        file_id: loc.file_id,
                                        value: AstPtr::of_node(tree, params[self.idx]),
                                    },
                                )
                            } else {
                                None
                            }
                        }
                    },
                }
            },
            Callee::Closure(c) => {
                let owner = db.closures[c.0 as usize].0;
                let expr = db.closures[c.0 as usize].1;
                let bloc = body_owner_loc_of(db, owner);
                let body = body_of_ref(db, owner);
                proof {
                    assert(db.wf_body(db.body_owner_loc(owner), db.body_of(owner)));
                    match owner {
                        DefWithBodyId::FunctionId(id) => assert(db.valid_loc(db.item_loc(
                            crate::db::ItemId::FunctionId(id),
                        ))),
                        DefWithBodyId::StaticId(id) => assert(db.valid_loc(db.item_loc(
                            crate::db::ItemId::StaticId(id),
                        ))),
                        DefWithBodyId::ConstId(id) => assert(db.valid_loc(db.item_loc(
                            crate::db::ItemId::ConstId(id),
                        ))),
                        DefWithBodyId::VariantId(id) => assert(db.valid_loc(
                            db.enum_variants[id.0 as int].loc,
                        )),
                    }
                }
                if (expr as usize) < body.exprs.len() {
                    match body.exprs[expr as usize] {
                        Some(eptr) => {
                            if eptr.kind == SyntaxKind::ClosureExpr {
                                let tree = db_tree(db, bloc.file_id);
                                match find_first_child(tree, eptr.raw, SyntaxKind::ParamList) {
                                    None => None,
                                    Some(pl) => {
                                        let params = collect_child_nodes(
                                            tree,
                                            pl,
                                            SyntaxKind::Param,
                                        );
                                        if self.idx < params.len() {
                                            Some(
                                                InFile {
                                                    file_id: bloc.file_id,
                                                    value: AstPtr::of_node(
                                                        tree,
                                                        params[self.idx],
                                                    ),
                                                },
                                            )
                                        } else {
                                            None
                                        }
                                    },
                                }
                            } else {
                                None
                            }
                        },
                        None => None,
                    }
                } else {
                    None
                }
            },
            _ => None,
        }
    }
}

/// The `self` parameter of a function.
#[derive(Clone, Copy, PartialEq, Eq, Hash, Debug, Structural)]
pub struct SelfParam {
    pub func: FunctionId,
}

/// The defining node of a `self` parameter: the parameter list's
/// `self` child.
pub open spec fn s_self_param_source(db: Database, sp: SelfParam) -> Option<InFile<AstPtr>> {
    let loc = db.functions[sp.func.0 as int].loc;
    let tree = db.tree(loc.file_id);
    match first_child(tree, loc.ptr.raw, SyntaxKind::ParamList) {
        None => None,
        Some(pl) => {
            let selfs = child_nodes(tree, pl, SyntaxKind::SelfParam);
            if selfs.len() > 0 {
                Some(InFile { file_id: loc.file_id, value: AstPtr::spec_new(tree, selfs[0]) })
            } else {
                None
            }
        },
    }
}

impl SelfParam {
    pub fn source(self, db: &Database) -> (r: Option<InFile<AstPtr>>)
        requires
            db.wf(),
            self.func.0 < db.functions.len(),
        ensures
            r == s_self_param_source(*db, self),
    {
        let loc = db.functions[self.func.0 as usize].loc;
        proof {
            assert(db.valid_loc(db.item_loc(crate::db::ItemId::FunctionId(self.func))));
        }
        let tree = db_tree(db, loc.file_id);
        match find_first_child(tree, loc.ptr.raw, SyntaxKind::ParamList) {
            None => None,
            Some(pl) => {
                let selfs = collect_child_nodes(tree, pl, SyntaxKind::SelfParam);
                if selfs.len() > 0 {
                    Some(InFile { file_id: loc.file_id, value: AstPtr::of_node(tree, selfs[0]) })
                } else {
                    None
                }
            },
        }
    }
}

/// A loop label inside one body.
#[derive(Clone, Copy, PartialEq, Eq, Hash, Debug, Structural)]
pub struct Label {
    pub parent: DefWithBodyId,
    pub label_id: LabelId,
}

/// The defining node of a label, from the body's source map.
pub open spec fn s_label_source(db: Database, l: Label) -> Option<InFile<AstPtr>> {
    let body = db.body_of(l.parent);
    if l.label_id.0 < body.labels.len() {
        Some(
            InFile {
                file_id: db.body_owner_loc(l.parent).file_id,
                value: body.labels[l.label_id.0 as int],
            },
        )
    } else {
        None
    }
}

impl Label {
    pub fn source(self, db: &Database) -> (r: Option<InFile<AstPtr>>)
        requires
            db.wf(),
            db.valid_body_owner(self.parent),
        ensures
            r == s_label_source(*db, self),
    {
        let loc = body_owner_loc_of(db, self.parent);
        let body = body_of_ref(db, self.parent);
        if (self.label_id.0 as usize) < body.labels.len() {
            Some(InFile { file_id: loc.file_id, value: body.labels[self.label_id.0 as usize] })
        } else {
            None
        }
    }
}

/// A macro definition of any flavour.
#[derive(Clone, Copy, PartialEq, Eq, Hash, Debug, Structural)]
pub struct Macro {
    pub id: MacroId,
}

pub open spec fn s_macro_valid(db: Database, m: Macro) -> bool {
    match m.id {
        MacroId::Macro2Id(id) => id.0 < db.macro2s.len(),
        MacroId::MacroRulesId(id) => id.0 < db.macro_rules_defs.len(),
        MacroId::ProcMacroId(id) => id.0 < db.proc_macros.len(),
    }
}

/// The defining node of a macro: its declarative definition node, or a
/// procedural macro's `fn` item (the pointer's kind tells the two apart).
pub open spec fn s_macro_source(db: Database, m: Macro) -> InFile<AstPtr> {
    let loc = match m.id {
        MacroId::Macro2Id(id) => db.macro2s[id.0 as int].loc,
        MacroId::MacroRulesId(id) => db.macro_rules_defs[id.0 as int].loc,
        MacroId::ProcMacroId(id) => db.proc_macros[id.0 as int].loc,
    };
    InFile { file_id: loc.file_id, value: loc.ptr }
}

impl Macro {
    pub fn source(self, db: &Database) -> (r: Option<InFile<AstPtr>>)
        requires
            db.wf(),
            s_macro_valid(*db, self),
        ensures
            r == Some(s_macro_source(*db, self)),
    {
        match self.id {
            MacroId::Macro2Id(id) => Some(id.ast_ptr(db)),
            MacroId::MacroRulesId(id) => Some(id.ast_ptr(db)),
            MacroId::ProcMacroId(id) => Some(id.ast_ptr(db)),
        }
    }
}

/// An `extern crate` declaration.
#[derive(Clone, Copy, PartialEq, Eq, Hash, Debug, Structural)]
pub struct ExternCrateDecl {
    pub id: ExternCrateId,
}

impl ExternCrateDecl {
    pub fn source(self, db: &Database) -> (r: Option<InFile<AstPtr>>)
        requires
            db.wf(),
            self.id.0 < db.extern_crates.len(),
        ensures
            r == Some(
                InFile {
                    file_id: db.extern_crates[self.id.0 as int].loc.file_id,
                    value: db.extern_crates[self.id.0 as int].loc.ptr,
                },
            ),
    {
        Some(self.id.ast_ptr(db))
    }
}


#[derive(Clone, Copy, PartialEq, Eq, Hash, Debug, Structural)]
pub struct Struct {
    pub id: StructId,
}

impl Struct {
    pub fn source(self, db: &Database) -> (r: Option<InFile<AstPtr>>)
        requires
            db.wf(),
            self.id.h_valid(*db),
        ensures
            r == Some(
                InFile {
                    file_id: self.id.h_loc(*db).file_id,
                    value: self.id.h_loc(*db).ptr,
                },
            ),
    {
        Some(self.id.ast_ptr(db))
    }
}

#[derive(Clone, Copy, PartialEq, Eq, Hash, Debug, Structural)]
pub struct Union {
    pub id: UnionId,
}

impl Union {
    pub fn source(self, db: &Database) -> (r: Option<InFile<AstPtr>>)
        requires
            db.wf(),
            self.id.h_valid(*db),
        ensures
            r == Some(
                InFile {
                    file_id: self.id.h_loc(*db).file_id,
                    value: self.id.h_loc(*db).ptr,
                },
            ),
    {
        Some(self.id.ast_ptr(db))
    }
}

#[derive(Clone, Copy, PartialEq, Eq, Hash, Debug, Structural)]
pub struct Enum {
    pub id: EnumId,
}

impl Enum {
    pub fn source(self, db: &Database) -> (r: Option<InFile<AstPtr>>)
        requires
            db.wf(),
            self.id.h_valid(*db),
        ensures
            r == Some(
                InFile {
                    file_id: self.id.h_loc(*db).file_id,
                    value: self.id.h_loc(*db).ptr,
                },
            ),
    {
        Some(self.id.ast_ptr(db))
    }
}

#[derive(Clone, Copy, PartialEq, Eq, Hash, Debug, Structural)]
pub struct Variant {
    pub id: EnumVariantId,
}

impl Variant {
    pub fn source(self, db: &Database) -> (r: Option<InFile<AstPtr>>)
        requires
            db.wf(),
            self.id.h_valid(*db),
        ensures
            r == Some(
                InFile {
                    file_id: self.id.h_loc(*db).file_id,
                    value: self.id.h_loc(*db).ptr,
                },
            ),
    {
        Some(self.id.ast_ptr(db))
    }
}

#[derive(Clone, Copy, PartialEq, Eq, Hash, Debug, Structural)]
pub struct Function {
    pub id: FunctionId,
}

impl Function {
    pub fn source(self, db: &Database) -> (r: Option<InFile<AstPtr>>)
        requires
            db.wf(),
            self.id.h_valid(*db),
        ensures
            r == Some(
                InFile {
                    file_id: self.id.h_loc(*db).file_id,
                    value: self.id.h_loc(*db).ptr,
                },
            ),
    {
        Some(self.id.ast_ptr(db))
    }
}

#[derive(Clone, Copy, PartialEq, Eq, Hash, Debug, Structural)]
pub struct Const {
    pub id: ConstId,
}

impl Const {
    pub fn source(self, db: &Database) -> (r: Option<InFile<AstPtr>>)
        requires
            db.wf(),
            self.id.h_valid(*db),
        ensures
            r == Some(
                InFile {
                    file_id: self.id.h_loc(*db).file_id,
                    value: self.id.h_loc(*db).ptr,
                },
            ),
    {
        Some(self.id.ast_ptr(db))
    }
}

#[derive(Clone, Copy, PartialEq, Eq, Hash, Debug, Structural)]
pub struct Static {
    pub id: StaticId,
}

impl Static {
    pub fn source(self, db: &Database) -> (r: Option<InFile<AstPtr>>)
        requires
            db.wf(),
            self.id.h_valid(*db),
        ensures
            r == Some(
                InFile {
                    file_id: self.id.h_loc(*db).file_id,
                    value: self.id.h_loc(*db).ptr,
                },
            ),
    {
        Some(self.id.ast_ptr(db))
    }
}

#[derive(Clone, Copy, PartialEq, Eq, Hash, Debug, Structural)]
pub struct Trait {
    pub id: TraitId,
}

impl Trait {
    pub fn source(self, db: &Database) -> (r: Option<InFile<AstPtr>>)
        requires
            db.wf(),
            self.id.h_valid(*db),
        ensures
            r == Some(
                InFile {
                    file_id: self.id.h_loc(*db).file_id,
                    value: self.id.h_loc(*db).ptr,
                },
            ),
    {
        Some(self.id.ast_ptr(db))
    }
}

#[derive(Clone, Copy, PartialEq, Eq, Hash, Debug, Structural)]
pub struct TraitAlias {
    pub id: TraitAliasId,
}

impl TraitAlias {
    pub fn source(self, db: &Database) -> (r: Option<InFile<AstPtr>>)
        requires
            db.wf(),
            self.id.h_valid(*db),
        ensures
            r == Some(
                InFile {
                    file_id: self.id.h_loc(*db).file_id,
                    value: self.id.h_loc(*db).ptr,
                },
            ),
    {
        Some(self.id.ast_ptr(db))
    }
}

#[derive(Clone, Copy, PartialEq, Eq, Hash, Debug, Structural)]
pub struct TypeAlias {
    pub id: TypeAliasId,
}

impl TypeAlias {
    pub fn source(self, db: &Database) -> (r: Option<InFile<AstPtr>>)
        requires
            db.wf(),
            self.id.h_valid(*db),
        ensures
            r == Some(
                InFile {
                    file_id: self.id.h_loc(*db).file_id,
                    value: self.id.h_loc(*db).ptr,
                },
            ),
    {
        Some(self.id.ast_ptr(db))
    }
}

#[derive(Clone, Copy, PartialEq, Eq, Hash, Debug, Structural)]
pub struct Impl {
    pub id: ImplId,
}

impl Impl {
    pub fn source(self, db: &Database) -> (r: Option<InFile<AstPtr>>)
        requires
            db.wf(),
            self.id.h_valid(*db),
        ensures
            r == Some(
                InFile {
                    file_id: self.id.h_loc(*db).file_id,
                    value: self.id.h_loc(*db).ptr,
                },
            ),
    {
        Some(self.id.ast_ptr(db))
    }
}

/// Any algebraic data type.
#[derive(Clone, Copy, PartialEq, Eq, Hash, Debug, Structural)]
pub enum Adt {
    Struct(Struct),
    Union(Union),
    Enum(Enum),
}

impl Adt {
    pub open spec fn adt_valid(self, db: Database) -> bool {
        match self {
            Adt::Struct(s) => s.id.0 < db.structs.len(),
            Adt::Union(u) => u.id.0 < db.unions.len(),
            Adt::Enum(e) => e.id.0 < db.enums.len(),
        }
    }

    pub open spec fn adt_loc(self, db: Database) -> ItemLoc {
        match self {
            Adt::Struct(s) => db.structs[s.id.0 as int].loc,
            Adt::Union(u) => db.unions[u.id.0 as int].loc,
            Adt::Enum(e) => db.enums[e.id.0 as int].loc,
        }
    }

    pub fn source(self, db: &Database) -> (r: Option<InFile<AstPtr>>)
        requires
            db.wf(),
            self.adt_valid(*db),
        ensures
            r == Some(
                InFile { file_id: self.adt_loc(*db).file_id, value: self.adt_loc(*db).ptr },
            ),
    {
        match self {
            Adt::Struct(s) => s.source(db),
            Adt::Union(u) => u.source(db),
            Adt::Enum(e) => e.source(db),
        }
    }
}

} // verus!
