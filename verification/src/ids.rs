//! Semantic definition identifiers.
//!
//! Every semantic entity (module, item, field, generic parameter, local
//! binding, ...) is identified by an opaque, copyable value: an index interned
//! per kind by the lowering collaborators.  Equality is structural: same kind
//! and same interned index.

use vstd::prelude::*;

verus! {

/// A macro-expansion file: a synthetic tree produced by expanding one macro
/// call.
#[derive(Clone, Copy, PartialEq, Eq, Hash, Debug, Structural)]
pub struct MacroFileId(pub u32);

/// Either a real file or a macro-expansion file.
#[derive(Clone, Copy, PartialEq, Eq, Hash, Debug, Structural)]
pub enum HirFileId {
    File(crate::FileId),
    Macro(MacroFileId),
}

#[derive(Clone, Copy, PartialEq, Eq, Hash, Debug, Structural)]
pub struct CrateId(pub u32);

/// A module: a local index inside one crate's module tree.
#[derive(Clone, Copy, PartialEq, Eq, Hash, Debug, Structural)]
pub struct ModuleId {
    pub krate: CrateId,
    pub local_id: u32,
}

#[derive(Clone, Copy, PartialEq, Eq, Hash, Debug, Structural)]
pub struct StructId(pub u32);

#[derive(Clone, Copy, PartialEq, Eq, Hash, Debug, Structural)]
pub struct UnionId(pub u32);

#[derive(Clone, Copy, PartialEq, Eq, Hash, Debug, Structural)]
pub struct EnumId(pub u32);

#[derive(Clone, Copy, PartialEq, Eq, Hash, Debug, Structural)]
pub struct EnumVariantId(pub u32);

#[derive(Clone, Copy, PartialEq, Eq, Hash, Debug, Structural)]
pub struct FunctionId(pub u32);

#[derive(Clone, Copy, PartialEq, Eq, Hash, Debug, Structural)]
pub struct ConstId(pub u32);

#[derive(Clone, Copy, PartialEq, Eq, Hash, Debug, Structural)]
pub struct StaticId(pub u32);

#[derive(Clone, Copy, PartialEq, Eq, Hash, Debug, Structural)]
pub struct TraitId(pub u32);

#[derive(Clone, Copy, PartialEq, Eq, Hash, Debug, Structural)]
pub struct TraitAliasId(pub u32);

#[derive(Clone, Copy, PartialEq, Eq, Hash, Debug, Structural)]
pub struct TypeAliasId(pub u32);

#[derive(Clone, Copy, PartialEq, Eq, Hash, Debug, Structural)]
pub struct ImplId(pub u32);

#[derive(Clone, Copy, PartialEq, Eq, Hash, Debug, Structural)]
pub struct Macro2Id(pub u32);

#[derive(Clone, Copy, PartialEq, Eq, Hash, Debug, Structural)]
pub struct MacroRulesId(pub u32);

#[derive(Clone, Copy, PartialEq, Eq, Hash, Debug, Structural)]
pub struct ProcMacroId(pub u32);

#[derive(Clone, Copy, PartialEq, Eq, Hash, Debug, Structural)]
pub struct ExternCrateId(pub u32);

#[derive(Clone, Copy, PartialEq, Eq, Hash, Debug, Structural)]
pub struct ExternBlockId(pub u32);

#[derive(Clone, Copy, PartialEq, Eq, Hash, Debug, Structural)]
pub struct UseId(pub u32);

/// A block expression that owns a scope of items.
#[derive(Clone, Copy, PartialEq, Eq, Hash, Debug, Structural)]
pub struct BlockId(pub u32);

#[derive(Clone, Copy, PartialEq, Eq, Hash, Debug, Structural)]
pub struct MacroCallId(pub u32);

#[derive(Clone, Copy, PartialEq, Eq, Hash, Debug, Structural)]
pub struct ClosureId(pub u32);

/// One expanded derive attribute, as interned by the macro expander.
#[derive(Clone, Copy, PartialEq, Eq, Hash, Debug, Structural)]
pub struct DeriveId(pub u32);

/// Index of one attribute on an item, used to identify derive invocations.
#[derive(Clone, Copy, PartialEq, Eq, Hash, Debug, Structural)]
pub struct AttrId(pub u32);

/// One use tree inside a `use` declaration, in flattened order.
#[derive(Clone, Copy, PartialEq, Eq, Hash, Debug, Structural)]
pub struct UseTreeIdx(pub u32);

/// A local binding inside one body.
#[derive(Clone, Copy, PartialEq, Eq, Hash, Debug, Structural)]
pub struct BindingId(pub u32);

/// A loop label inside one body.
#[derive(Clone, Copy, PartialEq, Eq, Hash, Debug, Structural)]
pub struct LabelId(pub u32);

#[derive(Clone, Copy, PartialEq, Eq, Hash, Debug, Structural)]
pub enum AdtId {
    StructId(StructId),
    UnionId(UnionId),
    EnumId(EnumId),
}

/// A field-owning variant: an enum variant, or the single implicit variant of
/// a struct or union.
#[derive(Clone, Copy, PartialEq, Eq, Hash, Debug, Structural)]
pub enum VariantId {
    EnumVariantId(EnumVariantId),
    StructId(StructId),
    UnionId(UnionId),
}

/// A definition that owns a lowered body (local bindings, labels, blocks).
#[derive(Clone, Copy, PartialEq, Eq, Hash, Debug, Structural)]
pub enum DefWithBodyId {
    FunctionId(FunctionId),
    StaticId(StaticId),
    ConstId(ConstId),
    VariantId(EnumVariantId),
}

/// A definition that owns generic parameters.
#[derive(Clone, Copy, PartialEq, Eq, Hash, Debug, Structural)]
pub enum GenericDefId {
    FunctionId(FunctionId),
    AdtId(AdtId),
    TraitId(TraitId),
    TraitAliasId(TraitAliasId),
    TypeAliasId(TypeAliasId),
    ImplId(ImplId),
    ConstId(ConstId),
}

#[derive(Clone, Copy, PartialEq, Eq, Hash, Debug, Structural)]
pub enum MacroId {
    Macro2Id(Macro2Id),
    MacroRulesId(MacroRulesId),
    ProcMacroId(ProcMacroId),
}

/// One field of a variant, by position in the lowered field list.
#[derive(Clone, Copy, PartialEq, Eq, Hash, Debug, Structural)]
pub struct FieldId {
    pub parent: VariantId,
    pub local_id: u32,
}

/// One type or const generic parameter, by position in the lowered parameter
/// list of its owner (the implicit trait `Self` parameter is position 0).
#[derive(Clone, Copy, PartialEq, Eq, Hash, Debug, Structural)]
pub struct TypeOrConstParamId {
    pub parent: GenericDefId,
    pub local_id: u32,
}

/// A `TypeOrConstParamId` known to denote a type parameter.
#[derive(Clone, Copy, PartialEq, Eq, Hash, Debug, Structural)]
pub struct TypeParamId(pub TypeOrConstParamId);

/// A `TypeOrConstParamId` known to denote a const parameter.
#[derive(Clone, Copy, PartialEq, Eq, Hash, Debug, Structural)]
pub struct ConstParamId(pub TypeOrConstParamId);

#[derive(Clone, Copy, PartialEq, Eq, Hash, Debug, Structural)]
pub struct LifetimeParamId {
    pub parent: GenericDefId,
    pub local_id: u32,
}

#[derive(Clone, Copy, PartialEq, Eq, Hash, Debug, Structural)]
pub enum GenericParamId {
    TypeParamId(TypeParamId),
    ConstParamId(ConstParamId),
    LifetimeParamId(LifetimeParamId),
}

impl TypeParamId {
    /// The caller asserts that the underlying parameter is a type parameter.
    pub fn from_unchecked(id: TypeOrConstParamId) -> (r: TypeParamId)
        ensures
            r.0 == id,
    {
        TypeParamId(id)
    }
}

impl ConstParamId {
    /// The caller asserts that the underlying parameter is a const parameter.
    pub fn from_unchecked(id: TypeOrConstParamId) -> (r: ConstParamId)
        ensures
            r.0 == id,
    {
        ConstParamId(id)
    }
}

/// Something that syntactically owns child definitions enumerable by the
/// child enumerator.
///
/// A `GenericDefId` here may denote the same definition as, for example, an
/// `EnumId`; the distinction is which children are enumerated (generic
/// parameters rather than variants).
#[derive(Clone, Copy, PartialEq, Eq, Hash, Debug, Structural)]
pub enum ChildContainer {
    DefWithBodyId(DefWithBodyId),
    ModuleId(ModuleId),
    TraitId(TraitId),
    TraitAliasId(TraitAliasId),
    ImplId(ImplId),
    EnumId(EnumId),
    VariantId(VariantId),
    TypeAliasId(TypeAliasId),
    GenericDefId(GenericDefId),
}

} // verus!
