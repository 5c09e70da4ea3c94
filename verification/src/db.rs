//! The facts this layer consumes from its external collaborators, as one
//! plain value.
//!
//! The parser supplies syntax trees; the macro expander supplies, per
//! macro-expansion file, the synthetic tree and its call-site metadata; name
//! resolution supplies per-crate module trees; body and field lowering supply
//! per-definition source maps.  This layer only reads these facts; it never
//! creates or mutates them within a session.

use vstd::prelude::*;
use crate::FileId;
use crate::ids::{
    AdtId, AttrId, BlockId, CrateId, ConstId, DefWithBodyId, DeriveId, EnumId, EnumVariantId, ExternBlockId, ExternCrateId,
    FunctionId, HirFileId, ImplId, Macro2Id, MacroCallId, MacroFileId, MacroRulesId, ModuleId,
    GenericDefId, ProcMacroId, StaticId, StructId, TraitAliasId, TraitId, TypeAliasId, UnionId,
    UseId, VariantId,
};
use crate::syntax::{AstPtr, InFile, SyntaxKind, SyntaxTree};

verus! {

/// Metadata of one macro-expansion file: the synthetic tree, the file the
/// call stands in, and the call's argument-site node in that file.
pub struct MacroFileData {
    pub tree: SyntaxTree,
    /// The file holding the macro call that produced this expansion.
    pub call_file: HirFileId,
    /// The argument-site node of the call in `call_file`, if it has one.
    pub arg_node: Option<u32>,
}

/// Which syntax defines a macro: a declarative definition node
/// (`macro_rules!` or `macro`) or a procedural macro's `fn` item.
#[derive(Clone, Copy, PartialEq, Eq, Hash, Debug)]
pub enum MacroDefAst {
    Decl(InFile<AstPtr>),
    ProcFn(InFile<AstPtr>),
}

/// One macro call, as interned by the macro expander.
pub struct MacroCallData {
    pub def_ast: MacroDefAst,
    /// The file the call expression stands in.
    pub call_file: HirFileId,
}

/// How a module came to be: and so which syntax defines it.
#[derive(Clone, Copy, PartialEq, Eq, Hash, Debug)]
pub enum ModuleOrigin {
    CrateRoot { definition: FileId },
    /// A `mod foo;` declaration whose contents live in their own file.
    File { declaration: InFile<AstPtr>, definition: FileId, is_mod_rs: bool },
    /// A `mod foo { ... }` with inline contents.
    Inline { definition: InFile<AstPtr> },
    /// The scope of a block expression that declares items.
    BlockExpr { definition: InFile<AstPtr>, block: BlockId },
}

/// An item as it sits in a module's scope.
#[derive(Clone, Copy, PartialEq, Eq, Hash, Debug, Structural)]
pub enum ItemId {
    StructId(StructId),
    UnionId(UnionId),
    EnumId(EnumId),
    FunctionId(FunctionId),
    ConstId(ConstId),
    StaticId(StaticId),
    TraitId(TraitId),
    TraitAliasId(TraitAliasId),
    TypeAliasId(TypeAliasId),
    ImplId(ImplId),
    ExternCrateId(ExternCrateId),
    ExternBlockId(ExternBlockId),
    UseId(UseId),
    Macro2Id(Macro2Id),
    MacroRulesId(MacroRulesId),
    ProcMacroId(ProcMacroId),
}

#[derive(Clone, Copy, PartialEq, Eq, Hash, Debug)]
pub enum AssocItemId {
    FunctionId(FunctionId),
    ConstId(ConstId),
    TypeAliasId(TypeAliasId),
}

/// One derive attribute expanded on an item: the attribute's index, the
/// derive-collecting call, and one call per derive path.
pub struct DeriveData {
    pub attr_id: AttrId,
    pub call: MacroCallId,
    pub sub_calls: Vec<Option<MacroCallId>>,
}

/// One module of a crate's module tree, as built by name resolution.
pub struct ModuleData {
    pub origin: ModuleOrigin,
    pub parent: Option<u32>,
    /// Child modules keyed by interned name.
    pub children: Vec<(u32, u32)>,
    /// Items declared directly in this module.
    pub scope: Vec<ItemId>,
    /// Macro call expressions expanded in this module.
    pub macro_calls: Vec<(InFile<AstPtr>, MacroCallId)>,
    /// Items whose attribute macro was expanded, keyed by the item's pointer.
    pub attr_calls: Vec<(InFile<AstPtr>, MacroCallId)>,
    /// Derive attributes expanded on items of this module, keyed by the
    /// attribute's pointer.
    pub derive_calls: Vec<(InFile<AstPtr>, DeriveId)>,
}

/// One crate: its module tree and its `include!`-style macro invocations.
pub struct CrateData {
    pub modules: Vec<ModuleData>,
    /// Macro calls of this crate that expand into a whole file.
    pub include_invocations: Vec<(MacroCallId, FileId)>,
}

/// Semantic generic-parameter counts of one definition, as lowered by the
/// collaborators (the implicit trait `Self` parameter is counted).
#[derive(Clone, Copy, PartialEq, Eq, Hash, Debug, Structural)]
pub struct GenericParams {
    pub n_type_or_consts: u32,
    pub n_lifetimes: u32,
}

/// The source map of one lowered body.  All pointers are into the owning
/// definition's own file.
pub struct BodyData {
    /// Defining pattern (or self-parameter) node of each local binding.
    pub bindings: Vec<AstPtr>,
    /// The binding introduced by a `self` parameter, if any.
    pub self_param: Option<u32>,
    /// Defining node of each label.
    pub labels: Vec<AstPtr>,
    /// Item-declaring block expressions of this body.
    pub blocks: Vec<BlockId>,
    /// Source pointer of each lowered expression, where one exists.
    pub exprs: Vec<Option<AstPtr>>,
}

/// Defining location of one item: its file and the structural pointer of its
/// declaration node.
#[derive(Clone, Copy, PartialEq, Eq, Hash, Debug)]
pub struct ItemLoc {
    pub file_id: HirFileId,
    pub ptr: AstPtr,
}

pub struct FunctionData {
    pub loc: ItemLoc,
    pub body: BodyData,
    pub generics: GenericParams,
}

pub struct ConstData {
    pub loc: ItemLoc,
    pub body: BodyData,
    pub generics: GenericParams,
}

pub struct StaticData {
    pub loc: ItemLoc,
    pub body: BodyData,
}

pub struct StructData {
    pub loc: ItemLoc,
    pub generics: GenericParams,
}

pub struct UnionData {
    pub loc: ItemLoc,
    pub generics: GenericParams,
}

pub struct EnumData {
    pub loc: ItemLoc,
    pub generics: GenericParams,
    pub variants: Vec<EnumVariantId>,
}

pub struct EnumVariantData {
    pub loc: ItemLoc,
    pub body: BodyData,
}

pub struct TraitData {
    pub loc: ItemLoc,
    pub generics: GenericParams,
    pub items: Vec<AssocItemId>,
}

pub struct TraitAliasData {
    pub loc: ItemLoc,
    pub generics: GenericParams,
}

pub struct TypeAliasData {
    pub loc: ItemLoc,
    pub generics: GenericParams,
}

pub struct ImplData {
    pub loc: ItemLoc,
    pub generics: GenericParams,
    pub items: Vec<AssocItemId>,
}

pub struct UseData {
    pub loc: ItemLoc,
    /// The flattened use-tree list recorded during item-tree construction.
    pub use_trees: Vec<AstPtr>,
}

pub struct PlainItemData {
    pub loc: ItemLoc,
}

pub struct BlockData {
    pub loc: ItemLoc,
    /// Root module of the block's own item scope.
    pub root_module: ModuleId,
}

/// Macro-expansion metadata as cached per expansion: the call-site file and
/// the call's argument node in it.
#[derive(Clone, Copy, PartialEq, Eq, Hash, Debug)]
pub struct ExpansionInfo {
    pub call_file: HirFileId,
    pub arg_node: Option<u32>,
}

/// Everything the external collaborators supply for one session.
pub struct Database {
    /// Parsed tree of each real file.
    pub files: Vec<SyntaxTree>,
    pub macro_files: Vec<MacroFileData>,
    /// Crates that may contain each real file, by file.
    pub relevant_crates: Vec<Vec<CrateId>>,
    pub crates: Vec<CrateData>,
    pub macro_calls: Vec<MacroCallData>,
    /// Expanded derive attributes, interned.
    pub derive_defs: Vec<DeriveData>,
    pub functions: Vec<FunctionData>,
    pub structs: Vec<StructData>,
    pub unions: Vec<UnionData>,
    pub enums: Vec<EnumData>,
    pub enum_variants: Vec<EnumVariantData>,
    pub consts: Vec<ConstData>,
    pub statics: Vec<StaticData>,
    pub traits: Vec<TraitData>,
    pub trait_aliases: Vec<TraitAliasData>,
    pub type_aliases: Vec<TypeAliasData>,
    pub impls: Vec<ImplData>,
    pub uses: Vec<UseData>,
    pub extern_crates: Vec<PlainItemData>,
    pub extern_blocks: Vec<PlainItemData>,
    pub macro2s: Vec<PlainItemData>,
    pub macro_rules_defs: Vec<PlainItemData>,
    pub proc_macros: Vec<PlainItemData>,
    pub blocks: Vec<BlockData>,
    /// Interned closures: owner body and the closure's expression index.
    pub closures: Vec<(DefWithBodyId, u32)>,
}

impl Database {
    pub open spec fn valid_file(self, f: FileId) -> bool {
        f.0 < self.files.len()
    }

    pub open spec fn valid_macro_file(self, m: MacroFileId) -> bool {
        m.0 < self.macro_files.len()
    }

    pub open spec fn valid_hir_file(self, f: HirFileId) -> bool {
        match f {
            HirFileId::File(f) => self.valid_file(f),
            HirFileId::Macro(m) => self.valid_macro_file(m),
        }
    }

    /// The tree of a file, real or synthetic.
    pub open spec fn tree(self, f: HirFileId) -> SyntaxTree {
        match f {
            HirFileId::File(f) => self.files[f.0 as int],
            HirFileId::Macro(m) => self.macro_files[m.0 as int].tree,
        }
    }

    /// Macro-expansion files rank above the files their calls stand in; the
    /// rank bounds every upward walk through expansion boundaries.
    pub open spec fn file_rank(self, f: HirFileId) -> int {
        match f {
            HirFileId::File(_) => 0,
            HirFileId::Macro(m) => m.0 + 1,
        }
    }

    pub open spec fn valid_crate(self, c: CrateId) -> bool {
        c.0 < self.crates.len()
    }

    pub open spec fn valid_module(self, m: ModuleId) -> bool {
        self.valid_crate(m.krate) && m.local_id < self.crates[m.krate.0 as int].modules.len()
    }

    pub open spec fn module_data(self, m: ModuleId) -> ModuleData {
        self.crates[m.krate.0 as int].modules[m.local_id as int]
    }

    /// A location is valid when its file exists and its pointer resolves in
    /// that file's tree.
    pub open spec fn valid_loc(self, loc: ItemLoc) -> bool {
        self.valid_hir_file(loc.file_id) && loc.ptr.resolves_in(self.tree(loc.file_id))
    }

    pub open spec fn valid_in_file_ptr(self, p: InFile<AstPtr>) -> bool {
        self.valid_hir_file(p.file_id) && p.value.resolves_in(self.tree(p.file_id))
    }

    pub open spec fn wf_trees(self) -> bool {
        &&& self.files.len() <= u32::MAX
        &&& self.macro_files.len() <= u32::MAX
        &&& forall|i: int| 0 <= i < self.files.len() ==> (#[trigger] self.files[i]).wf()
        &&& forall|i: int|
            0 <= i < self.macro_files.len() ==> (#[trigger] self.macro_files[i]).tree.wf()
    }

    /// Expansion metadata walks strictly downward in rank, and its nodes are
    /// real nodes of the call-site file.
    pub open spec fn wf_macro_files(self) -> bool {
        forall|i: int|
            0 <= i < self.macro_files.len() ==> {
                let mf = #[trigger] self.macro_files[i];
                &&& self.valid_hir_file(mf.call_file)
                &&& self.file_rank(mf.call_file) < i + 1
                &&& match mf.arg_node {
                    Some(a) => self.tree(mf.call_file).valid_node(a),
                    None => true,
                }
            }
    }

    pub open spec fn wf_relevant_crates(self) -> bool {
        &&& self.relevant_crates.len() == self.files.len()
        &&& forall|i: int, j: int|
            0 <= i < self.relevant_crates.len() && 0 <= j < self.relevant_crates[i].len()
                ==> self.valid_crate(#[trigger] self.relevant_crates[i][j])
    }

    pub open spec fn wf_module(self, c: CrateId, md: ModuleData) -> bool {
        &&& match md.origin {
            ModuleOrigin::CrateRoot { definition } => self.valid_file(definition),
            ModuleOrigin::File { declaration, definition, .. } => self.valid_in_file_ptr(
                declaration,
            ) && self.valid_file(definition),
            ModuleOrigin::Inline { definition } => self.valid_in_file_ptr(definition),
            ModuleOrigin::BlockExpr { definition, block } => self.valid_in_file_ptr(definition)
                && block.0 < self.blocks.len(),
        }
        &&& match md.parent {
            Some(p) => p < self.crates[c.0 as int].modules.len(),
            None => true,
        }
        &&& forall|k: int|
            0 <= k < md.children.len() ==> (#[trigger] md.children[k]).1
                < self.crates[c.0 as int].modules.len()
        &&& forall|k: int| 0 <= k < md.scope.len() ==> self.valid_item(#[trigger] md.scope[k])
        &&& forall|k: int|
            0 <= k < md.macro_calls.len() ==> (#[trigger] md.macro_calls[k]).1.0
                < self.macro_calls.len() && self.valid_in_file_ptr(md.macro_calls[k].0)
        &&& forall|k: int|
            0 <= k < md.attr_calls.len() ==> (#[trigger] md.attr_calls[k]).1.0
                < self.macro_calls.len() && self.valid_in_file_ptr(md.attr_calls[k].0)
        &&& forall|k: int|
            0 <= k < md.derive_calls.len() ==> (#[trigger] md.derive_calls[k]).1.0
                < self.derive_defs.len() && self.valid_in_file_ptr(md.derive_calls[k].0)
    }

    pub open spec fn wf_crates(self) -> bool {
        forall|c: int, i: int|
            0 <= c < self.crates.len() && 0 <= i < self.crates[c].modules.len() ==> self.wf_module(
                CrateId(c as u32),
                #[trigger] self.crates[c].modules[i],
            )
    }

    pub open spec fn valid_item(self, item: ItemId) -> bool {
        match item {
            ItemId::StructId(id) => id.0 < self.structs.len(),
            ItemId::UnionId(id) => id.0 < self.unions.len(),
            ItemId::EnumId(id) => id.0 < self.enums.len(),
            ItemId::FunctionId(id) => id.0 < self.functions.len(),
            ItemId::ConstId(id) => id.0 < self.consts.len(),
            ItemId::StaticId(id) => id.0 < self.statics.len(),
            ItemId::TraitId(id) => id.0 < self.traits.len(),
            ItemId::TraitAliasId(id) => id.0 < self.trait_aliases.len(),
            ItemId::TypeAliasId(id) => id.0 < self.type_aliases.len(),
            ItemId::ImplId(id) => id.0 < self.impls.len(),
            ItemId::ExternCrateId(id) => id.0 < self.extern_crates.len(),
            ItemId::ExternBlockId(id) => id.0 < self.extern_blocks.len(),
            ItemId::UseId(id) => id.0 < self.uses.len(),
            ItemId::Macro2Id(id) => id.0 < self.macro2s.len(),
            ItemId::MacroRulesId(id) => id.0 < self.macro_rules_defs.len(),
            ItemId::ProcMacroId(id) => id.0 < self.proc_macros.len(),
        }
    }

    /// Defining location of an item, by its id.
    pub open spec fn item_loc(self, item: ItemId) -> ItemLoc {
        match item {
            ItemId::StructId(id) => self.structs[id.0 as int].loc,
            ItemId::UnionId(id) => self.unions[id.0 as int].loc,
            ItemId::EnumId(id) => self.enums[id.0 as int].loc,
            ItemId::FunctionId(id) => self.functions[id.0 as int].loc,
            ItemId::ConstId(id) => self.consts[id.0 as int].loc,
            ItemId::StaticId(id) => self.statics[id.0 as int].loc,
            ItemId::TraitId(id) => self.traits[id.0 as int].loc,
            ItemId::TraitAliasId(id) => self.trait_aliases[id.0 as int].loc,
            ItemId::TypeAliasId(id) => self.type_aliases[id.0 as int].loc,
            ItemId::ImplId(id) => self.impls[id.0 as int].loc,
            ItemId::ExternCrateId(id) => self.extern_crates[id.0 as int].loc,
            ItemId::ExternBlockId(id) => self.extern_blocks[id.0 as int].loc,
            ItemId::UseId(id) => self.uses[id.0 as int].loc,
            ItemId::Macro2Id(id) => self.macro2s[id.0 as int].loc,
            ItemId::MacroRulesId(id) => self.macro_rules_defs[id.0 as int].loc,
            ItemId::ProcMacroId(id) => self.proc_macros[id.0 as int].loc,
        }
    }

    pub open spec fn valid_body_owner(self, d: DefWithBodyId) -> bool {
        match d {
            DefWithBodyId::FunctionId(id) => id.0 < self.functions.len(),
            DefWithBodyId::StaticId(id) => id.0 < self.statics.len(),
            DefWithBodyId::ConstId(id) => id.0 < self.consts.len(),
            DefWithBodyId::VariantId(id) => id.0 < self.enum_variants.len(),
        }
    }

    pub open spec fn body_of(self, d: DefWithBodyId) -> BodyData {
        match d {
            DefWithBodyId::FunctionId(id) => self.functions[id.0 as int].body,
            DefWithBodyId::StaticId(id) => self.statics[id.0 as int].body,
            DefWithBodyId::ConstId(id) => self.consts[id.0 as int].body,
            DefWithBodyId::VariantId(id) => self.enum_variants[id.0 as int].body,
        }
    }

    pub open spec fn body_owner_loc(self, d: DefWithBodyId) -> ItemLoc {
        match d {
            DefWithBodyId::FunctionId(id) => self.functions[id.0 as int].loc,
            DefWithBodyId::StaticId(id) => self.statics[id.0 as int].loc,
            DefWithBodyId::ConstId(id) => self.consts[id.0 as int].loc,
            DefWithBodyId::VariantId(id) => self.enum_variants[id.0 as int].loc,
        }
    }

    pub open spec fn wf_items(self) -> bool {
        &&& self.structs.len() <= u32::MAX && self.unions.len() <= u32::MAX && self.enums.len()
            <= u32::MAX
        &&& self.functions.len() <= u32::MAX && self.consts.len() <= u32::MAX
            && self.statics.len() <= u32::MAX
        &&& self.traits.len() <= u32::MAX && self.trait_aliases.len() <= u32::MAX
            && self.type_aliases.len() <= u32::MAX
        &&& self.impls.len() <= u32::MAX && self.uses.len() <= u32::MAX
            && self.extern_crates.len() <= u32::MAX
        &&& self.extern_blocks.len() <= u32::MAX && self.macro2s.len() <= u32::MAX
            && self.macro_rules_defs.len() <= u32::MAX
        &&& self.proc_macros.len() <= u32::MAX && self.enum_variants.len() <= u32::MAX
            && self.blocks.len() <= u32::MAX
        &&& self.macro_calls.len() <= u32::MAX && self.closures.len() <= u32::MAX
        &&& self.derive_defs.len() <= u32::MAX
        &&& forall|item: ItemId| self.valid_item(item) ==> self.valid_loc(#[trigger] self.item_loc(item))
        &&& forall|i: int|
            0 <= i < self.uses.len() ==> (#[trigger] self.uses[i]).use_trees.len() <= u32::MAX
        &&& forall|i: int|
            0 <= i < self.enum_variants.len() ==> self.valid_loc(
                (#[trigger] self.enum_variants[i]).loc,
            )
        &&& forall|i: int, k: int|
            0 <= i < self.enums.len() && 0 <= k < self.enums[i].variants.len()
                ==> (#[trigger] self.enums[i].variants[k]).0 < self.enum_variants.len()
        &&& forall|i: int, k: int|
            0 <= i < self.traits.len() && 0 <= k < self.traits[i].items.len()
                ==> self.valid_assoc_item(#[trigger] self.traits[i].items[k])
        &&& forall|i: int, k: int|
            0 <= i < self.impls.len() && 0 <= k < self.impls[i].items.len()
                ==> self.valid_assoc_item(#[trigger] self.impls[i].items[k])
        &&& forall|i: int|
            0 <= i < self.blocks.len() ==> self.valid_loc((#[trigger] self.blocks[i]).loc)
                && self.valid_module(self.blocks[i].root_module)
        &&& forall|i: int|
            0 <= i < self.macro_calls.len() ==> {
                let mc = #[trigger] self.macro_calls[i];
                &&& self.valid_hir_file(mc.call_file)
                &&& match mc.def_ast {
                    MacroDefAst::Decl(p) => self.valid_in_file_ptr(p),
                    MacroDefAst::ProcFn(p) => self.valid_in_file_ptr(p),
                }
            }
        &&& forall|d: DefWithBodyId|
            self.valid_body_owner(d) ==> self.wf_body(
                self.body_owner_loc(d),
                #[trigger] self.body_of(d),
            )
        &&& forall|i: int|
            0 <= i < self.closures.len() ==> self.valid_body_owner(
                (#[trigger] self.closures[i]).0,
            )
    }

    pub open spec fn valid_assoc_item(self, item: AssocItemId) -> bool {
        match item {
            AssocItemId::FunctionId(id) => id.0 < self.functions.len(),
            AssocItemId::ConstId(id) => id.0 < self.consts.len(),
            AssocItemId::TypeAliasId(id) => id.0 < self.type_aliases.len(),
        }
    }

    /// All body source pointers resolve in the owning definition's file, and
    /// the recorded self-parameter and blocks exist.
    pub open spec fn wf_body(self, loc: ItemLoc, body: BodyData) -> bool {
        let tree = self.tree(loc.file_id);
        &&& body.bindings.len() <= u32::MAX && body.labels.len() <= u32::MAX && body.exprs.len()
            <= u32::MAX
        &&& body.blocks.len() <= u32::MAX
        &&& forall|i: int|
            0 <= i < body.bindings.len() ==> (#[trigger] body.bindings[i]).resolves_in(tree)
        &&& forall|i: int|
            0 <= i < body.labels.len() ==> (#[trigger] body.labels[i]).resolves_in(tree)
        &&& forall|i: int|
            0 <= i < body.exprs.len() ==> match #[trigger] body.exprs[i] {
                Some(p) => p.resolves_in(tree),
                None => true,
            }
        &&& forall|i: int| 0 <= i < body.blocks.len() ==> (#[trigger] body.blocks[i]).0 < self.blocks.len()
        &&& match body.self_param {
            Some(b) => b < body.bindings.len(),
            None => true,
        }
    }

    pub open spec fn valid_variant(self, v: VariantId) -> bool {
        match v {
            VariantId::EnumVariantId(id) => id.0 < self.enum_variants.len(),
            VariantId::StructId(id) => id.0 < self.structs.len(),
            VariantId::UnionId(id) => id.0 < self.unions.len(),
        }
    }

    pub open spec fn variant_loc(self, v: VariantId) -> ItemLoc {
        match v {
            VariantId::EnumVariantId(id) => self.enum_variants[id.0 as int].loc,
            VariantId::StructId(id) => self.structs[id.0 as int].loc,
            VariantId::UnionId(id) => self.unions[id.0 as int].loc,
        }
    }

    pub open spec fn valid_generic_def(self, g: GenericDefId) -> bool {
        match g {
            GenericDefId::FunctionId(id) => id.0 < self.functions.len(),
            GenericDefId::AdtId(AdtId::StructId(id)) => id.0 < self.structs.len(),
            GenericDefId::AdtId(AdtId::UnionId(id)) => id.0 < self.unions.len(),
            GenericDefId::AdtId(AdtId::EnumId(id)) => id.0 < self.enums.len(),
            GenericDefId::TraitId(id) => id.0 < self.traits.len(),
            GenericDefId::TraitAliasId(id) => id.0 < self.trait_aliases.len(),
            GenericDefId::TypeAliasId(id) => id.0 < self.type_aliases.len(),
            GenericDefId::ImplId(id) => id.0 < self.impls.len(),
            GenericDefId::ConstId(id) => id.0 < self.consts.len(),
        }
    }

    pub open spec fn generic_def_loc(self, g: GenericDefId) -> ItemLoc {
        match g {
            GenericDefId::FunctionId(id) => self.functions[id.0 as int].loc,
            GenericDefId::AdtId(AdtId::StructId(id)) => self.structs[id.0 as int].loc,
            GenericDefId::AdtId(AdtId::UnionId(id)) => self.unions[id.0 as int].loc,
            GenericDefId::AdtId(AdtId::EnumId(id)) => self.enums[id.0 as int].loc,
            GenericDefId::TraitId(id) => self.traits[id.0 as int].loc,
            GenericDefId::TraitAliasId(id) => self.trait_aliases[id.0 as int].loc,
            GenericDefId::TypeAliasId(id) => self.type_aliases[id.0 as int].loc,
            GenericDefId::ImplId(id) => self.impls[id.0 as int].loc,
            GenericDefId::ConstId(id) => self.consts[id.0 as int].loc,
        }
    }

    /// Semantic generic-parameter counts of a definition (statics own none).
    pub open spec fn generic_def_params(self, g: GenericDefId) -> GenericParams {
        match g {
            GenericDefId::FunctionId(id) => self.functions[id.0 as int].generics,
            GenericDefId::AdtId(AdtId::StructId(id)) => self.structs[id.0 as int].generics,
            GenericDefId::AdtId(AdtId::UnionId(id)) => self.unions[id.0 as int].generics,
            GenericDefId::AdtId(AdtId::EnumId(id)) => self.enums[id.0 as int].generics,
            GenericDefId::TraitId(id) => self.traits[id.0 as int].generics,
            GenericDefId::TraitAliasId(id) => self.trait_aliases[id.0 as int].generics,
            GenericDefId::TypeAliasId(id) => self.type_aliases[id.0 as int].generics,
            GenericDefId::ImplId(id) => self.impls[id.0 as int].generics,
            GenericDefId::ConstId(id) => self.consts[id.0 as int].generics,
        }
    }

    pub open spec fn valid_container(self, c: crate::ids::ChildContainer) -> bool {
        match c {
            crate::ids::ChildContainer::DefWithBodyId(d) => self.valid_body_owner(d),
            crate::ids::ChildContainer::ModuleId(m) => self.valid_module(m),
            crate::ids::ChildContainer::TraitId(t) => t.0 < self.traits.len(),
            crate::ids::ChildContainer::TraitAliasId(t) => t.0 < self.trait_aliases.len(),
            crate::ids::ChildContainer::ImplId(i) => i.0 < self.impls.len(),
            crate::ids::ChildContainer::EnumId(e) => e.0 < self.enums.len(),
            crate::ids::ChildContainer::VariantId(v) => self.valid_variant(v),
            crate::ids::ChildContainer::TypeAliasId(t) => t.0 < self.type_aliases.len(),
            crate::ids::ChildContainer::GenericDefId(g) => self.valid_generic_def(g),
        }
    }

    /// The whole database is a coherent snapshot of the collaborators'
    /// output.
    /// Index spaces fit the 32-bit identifiers.
    pub open spec fn wf_sizes(self) -> bool {
        &&& self.crates.len() <= u32::MAX
        &&& forall|c: int|
            0 <= c < self.crates.len() ==> (#[trigger] self.crates[c]).modules.len() <= u32::MAX
                && self.crates[c].include_invocations.len() <= u32::MAX
    }

    /// Interned derive data points at interned macro calls.
    pub open spec fn wf_derives(self) -> bool {
        forall|i: int|
            0 <= i < self.derive_defs.len() ==> (#[trigger] self.derive_defs[i]).call.0
                < self.macro_calls.len()
    }

    /// `include!`-style invocation lists point at interned calls and real
    /// files.
    pub open spec fn wf_includes(self) -> bool {
        forall|c: int, k: int|
            0 <= c < self.crates.len() && 0 <= k < self.crates[c].include_invocations.len() ==> {
                let e = #[trigger] self.crates[c].include_invocations[k];
                &&& e.0.0 < self.macro_calls.len()
                &&& self.valid_file(e.1)
            }
    }

    pub open spec fn wf(self) -> bool {
        &&& self.wf_trees()
        &&& self.wf_macro_files()
        &&& self.wf_relevant_crates()
        &&& self.wf_crates()
        &&& self.wf_items()
        &&& self.wf_includes()
        &&& self.wf_derives()
        &&& self.wf_sizes()
    }
}

} // verus!
