//! End-to-end checks of syntax-to-definition resolution, the child
//! enumerator, the caches and the definition-to-source direction, on small
//! hand-built databases.

use hir_source_map::FileId;
use hir_source_map::db::{
    BlockData, BodyData, CrateData, Database, DeriveData, EnumData, EnumVariantData, FunctionData,
    GenericParams, ItemId, ItemLoc, MacroCallData, MacroDefAst, MacroFileData, ModuleData,
    ModuleOrigin, PlainItemData, StructData, TraitData, UseData,
};
use hir_source_map::caches::module_vec_len;
use hir_source_map::caches::module_vec_get;
use hir_source_map::dyn_map::{DefIdPolicy, DefValue, DynMap, KeyKind};
use hir_source_map::has_source::{
    Field, HasChildSource, Label, Module, ModuleSourcePtr, Param, SelfParam, Callee,
    CallableDefId,
};
use hir_source_map::ids::{
    AttrId, BindingId, BlockId, UseId, UseTreeIdx, ChildContainer, CrateId, DefWithBodyId, DeriveId, EnumId,
    EnumVariantId, FunctionId, GenericDefId, HirFileId, LabelId, MacroCallId, MacroFileId,
    MacroId, ModuleId, StructId, TraitId, TypeOrConstParamId, VariantId,
};
use hir_source_map::source_to_def::SourceToDefCache;
use hir_source_map::src::HasSource;
use hir_source_map::src_def_cache::{DefToSrcCacheContext, SrcDefCacheContext};
use hir_source_map::syntax::{
    AstPtr, InFile, SyntaxKind, SyntaxNodeData, SyntaxTree, TextRange,
};

fn node(kind: SyntaxKind, parent: Option<u32>) -> SyntaxNodeData {
    SyntaxNodeData { kind, parent, name: None, range: TextRange { start: 0, end: 0 } }
}

fn named_node(kind: SyntaxKind, parent: Option<u32>, name: u32) -> SyntaxNodeData {
    SyntaxNodeData { kind, parent, name: Some(name), range: TextRange { start: 0, end: 0 } }
}

fn ptr(kind: SyntaxKind, raw: u32) -> AstPtr {
    AstPtr { kind, raw }
}

fn empty_body() -> BodyData {
    BodyData { bindings: vec![], self_param: None, labels: vec![], blocks: vec![], exprs: vec![] }
}

fn empty_module(origin: ModuleOrigin) -> ModuleData {
    ModuleData {
        origin,
        parent: None,
        children: vec![],
        scope: vec![],
        macro_calls: vec![],
        attr_calls: vec![],
        derive_calls: vec![],
    }
}

fn base_db() -> Database {
    Database {
        files: vec![],
        macro_files: vec![],
        relevant_crates: vec![],
        crates: vec![],
        macro_calls: vec![],
        derive_defs: vec![],
        functions: vec![],
        structs: vec![],
        unions: vec![],
        enums: vec![],
        enum_variants: vec![],
        consts: vec![],
        statics: vec![],
        traits: vec![],
        trait_aliases: vec![],
        type_aliases: vec![],
        impls: vec![],
        uses: vec![],
        extern_crates: vec![],
        extern_blocks: vec![],
        macro2s: vec![],
        macro_rules_defs: vec![],
        proc_macros: vec![],
        blocks: vec![],
        closures: vec![],
    }
}

/// One real file whose root module holds one struct with two named fields.
fn struct_db() -> Database {
    let mut db = base_db();
    db.files.push(SyntaxTree {
        nodes: vec![
            node(SyntaxKind::SourceFile, None),
            node(SyntaxKind::Struct, Some(0)),
            node(SyntaxKind::RecordFieldList, Some(1)),
            node(SyntaxKind::RecordField, Some(2)),
            node(SyntaxKind::RecordField, Some(2)),
        ],
    });
    db.relevant_crates.push(vec![CrateId(0)]);
    let mut root = empty_module(ModuleOrigin::CrateRoot { definition: FileId(0) });
    root.scope.push(ItemId::StructId(StructId(0)));
    db.crates.push(CrateData { modules: vec![root], include_invocations: vec![] });
    db.structs.push(StructData {
        loc: ItemLoc { file_id: HirFileId::File(FileId(0)), ptr: ptr(SyntaxKind::Struct, 1) },
        generics: GenericParams { n_type_or_consts: 0, n_lifetimes: 0 },
    });
    db
}

#[test]
fn resolve_struct_round_trip() {
    let db = struct_db();
    let mut cache = SourceToDefCache::new();
    let src = InFile {
        file_id: HirFileId::File(FileId(0)),
        value: ptr(SyntaxKind::Struct, 1),
    };
    assert_eq!(cache.struct_to_def(&db, src), Some(StructId(0)));
    // the recorded source of the resolved definition is the node we started
    // from
    let back = StructId(0).ast_ptr(&db);
    assert_eq!(back.file_id, src.file_id);
    assert_eq!(back.value, src.value);
}

#[test]
fn pointer_re_resolves_in_same_shape_tree() {
    let db = struct_db();
    let p = ptr(SyntaxKind::Struct, 1);
    assert_eq!(p.to_node(&db.files[0]), Some(1));
    // a freshly built tree of the same shape resolves it to the same node
    let fresh = struct_db();
    assert_eq!(p.to_node(&fresh.files[0]), Some(1));
    // a tree with another kind at that coordinate refuses it
    let other = SyntaxTree {
        nodes: vec![node(SyntaxKind::SourceFile, None), node(SyntaxKind::Enum, Some(0))],
    };
    assert_eq!(p.to_node(&other), None);
}

#[test]
fn resolve_missing_pointer_is_none() {
    let db = struct_db();
    let mut cache = SourceToDefCache::new();
    // a pointer of the right kind at the wrong coordinate resolves to
    // nothing
    let src = InFile {
        file_id: HirFileId::File(FileId(0)),
        value: ptr(SyntaxKind::Struct, 2),
    };
    assert_eq!(cache.struct_to_def(&db, src), None);
}

#[test]
fn children_of_struct_variant_field_order() {
    let db = struct_db();
    let mut cache = SourceToDefCache::new();
    let container = ChildContainer::VariantId(VariantId::StructId(StructId(0)));
    let m = cache.cache_for(&db, container, HirFileId::File(FileId(0)));
    let f0 = m.get_fwd(KeyKind::RecordField, ptr(SyntaxKind::RecordField, 3));
    let f1 = m.get_fwd(KeyKind::RecordField, ptr(SyntaxKind::RecordField, 4));
    match (f0, f1) {
        (Some(DefValue::Field(a)), Some(DefValue::Field(b))) => {
            assert_eq!(a.local_id, 0);
            assert_eq!(b.local_id, 1);
        },
        other => panic!("unexpected field entries: {:?}", other),
    }
    // the pair list gives the same order
    let pairs = VariantId::StructId(StructId(0)).child_source(&db);
    assert_eq!(pairs.value.len(), 2);
    assert_eq!(pairs.value[0].0.local_id, 0);
    assert_eq!(pairs.value[0].1, ptr(SyntaxKind::RecordField, 3));
    assert_eq!(pairs.value[1].0.local_id, 1);
    assert_eq!(pairs.value[1].1, ptr(SyntaxKind::RecordField, 4));
    assert!(pairs.value[0].1.raw < pairs.value[1].1.raw);
}

#[test]
fn field_source_by_id() {
    let db = struct_db();
    let field = Field { parent: VariantId::StructId(StructId(0)), id: 1 };
    let src = field.source(&db).expect("second field has syntax");
    assert_eq!(src.value, ptr(SyntaxKind::RecordField, 4));
    let missing = Field { parent: VariantId::StructId(StructId(0)), id: 2 };
    assert_eq!(missing.source(&db), None);
}

#[test]
fn children_of_twice_is_stable() {
    let db = struct_db();
    let mut cache = SourceToDefCache::new();
    let container = ChildContainer::VariantId(VariantId::StructId(StructId(0)));
    let first = cache.cache_for(&db, container, HirFileId::File(FileId(0)));
    let second = cache.cache_for(&db, container, HirFileId::File(FileId(0)));
    let p = ptr(SyntaxKind::RecordField, 3);
    assert_eq!(
        first.get_fwd(KeyKind::RecordField, p),
        second.get_fwd(KeyKind::RecordField, p)
    );
    assert_eq!(first.is_empty(KeyKind::TupleField), second.is_empty(KeyKind::TupleField));
}

/// A macro call in the root module; its expansion holds one function.
fn macro_db() -> Database {
    let mut db = base_db();
    db.files.push(SyntaxTree {
        nodes: vec![
            node(SyntaxKind::SourceFile, None),
            node(SyntaxKind::MacroCall, Some(0)),
        ],
    });
    db.macro_files.push(MacroFileData {
        tree: SyntaxTree {
            nodes: vec![node(SyntaxKind::Other, None), node(SyntaxKind::Fn, Some(0))],
        },
        call_file: HirFileId::File(FileId(0)),
        arg_node: Some(1),
    });
    db.relevant_crates.push(vec![CrateId(0)]);
    let mut root = empty_module(ModuleOrigin::CrateRoot { definition: FileId(0) });
    root.scope.push(ItemId::FunctionId(FunctionId(0)));
    db.crates.push(CrateData { modules: vec![root], include_invocations: vec![] });
    db.functions.push(FunctionData {
        loc: ItemLoc {
            file_id: HirFileId::Macro(MacroFileId(0)),
            ptr: ptr(SyntaxKind::Fn, 1),
        },
        body: empty_body(),
        generics: GenericParams { n_type_or_consts: 0, n_lifetimes: 0 },
    });
    db
}

#[test]
fn macro_expanded_fn_resolves_to_call_site_module() {
    let db = macro_db();
    let mut cache = SourceToDefCache::new();
    let src = InFile {
        file_id: HirFileId::Macro(MacroFileId(0)),
        value: ptr(SyntaxKind::Fn, 1),
    };
    // the walk leaves the synthetic tree through the expansion's argument
    // site and lands in the module enclosing the macro call
    let found = cache.find_container(&db, InFile { file_id: src.file_id, value: 1 });
    assert_eq!(
        found,
        Some(ChildContainer::ModuleId(ModuleId { krate: CrateId(0), local_id: 0 }))
    );
    assert_eq!(cache.fn_to_def(&db, src), Some(FunctionId(0)));
}

/// A trait with no written generic parameters.
fn trait_db() -> Database {
    let mut db = base_db();
    db.files.push(SyntaxTree {
        nodes: vec![node(SyntaxKind::SourceFile, None), node(SyntaxKind::Trait, Some(0))],
    });
    db.relevant_crates.push(vec![CrateId(0)]);
    let mut root = empty_module(ModuleOrigin::CrateRoot { definition: FileId(0) });
    root.scope.push(ItemId::TraitId(TraitId(0)));
    db.crates.push(CrateData { modules: vec![root], include_invocations: vec![] });
    db.traits.push(TraitData {
        loc: ItemLoc { file_id: HirFileId::File(FileId(0)), ptr: ptr(SyntaxKind::Trait, 1) },
        generics: GenericParams { n_type_or_consts: 1, n_lifetimes: 0 },
        items: vec![],
    });
    db
}

#[test]
fn trait_implicit_self_is_sole_generic_child() {
    let db = trait_db();
    let mut cache = SourceToDefCache::new();
    let g = GenericDefId::TraitId(TraitId(0));
    let m = cache.cache_for(&db, ChildContainer::GenericDefId(g), HirFileId::File(FileId(0)));
    let entry = m.get_fwd(KeyKind::TypeParam, ptr(SyntaxKind::Trait, 1));
    assert_eq!(
        entry,
        Some(DefValue::TypeOrConstParam(TypeOrConstParamId { parent: g, local_id: 0 }))
    );
    // and nothing else: no const params, no lifetimes
    assert!(m.is_empty(KeyKind::ConstParam));
    assert!(m.is_empty(KeyKind::LifetimeParam));
    // the pair list shows exactly one entry, numbered zero, at the trait's
    // own declaration
    let pairs: InFile<Vec<(TypeOrConstParamId, AstPtr)>> =
        <GenericDefId as HasChildSource<TypeOrConstParamId>>::child_source(g, &db);
    assert_eq!(pairs.value.len(), 1);
    assert_eq!(pairs.value[0].0, TypeOrConstParamId { parent: g, local_id: 0 });
    assert_eq!(pairs.value[0].1, ptr(SyntaxKind::Trait, 1));
}

#[test]
fn detached_file_yields_empty_module_list() {
    let mut db = base_db();
    db.files.push(SyntaxTree { nodes: vec![node(SyntaxKind::SourceFile, None)] });
    db.relevant_crates.push(vec![]);
    let mut cache = SourceToDefCache::new();
    let mods = cache.file_to_def(&db, FileId(0));
    assert_eq!(module_vec_len(&mods), 0);
    // and classification inside the file reports no container rather than
    // aborting
    let found = cache.find_container(&db, InFile { file_id: HirFileId::File(FileId(0)), value: 0 });
    assert_eq!(found, None);
}

#[test]
fn file_in_two_module_trees_lists_both() {
    let mut db = base_db();
    db.files.push(SyntaxTree { nodes: vec![node(SyntaxKind::SourceFile, None)] });
    db.relevant_crates.push(vec![CrateId(0), CrateId(1)]);
    db.crates.push(CrateData {
        modules: vec![empty_module(ModuleOrigin::CrateRoot { definition: FileId(0) })],
        include_invocations: vec![],
    });
    db.crates.push(CrateData {
        modules: vec![empty_module(ModuleOrigin::CrateRoot { definition: FileId(0) })],
        include_invocations: vec![],
    });
    let mut cache = SourceToDefCache::new();
    let mods = cache.file_to_def(&db, FileId(0));
    assert_eq!(module_vec_len(&mods), 2);
    assert_eq!(module_vec_get(&mods, 0), Some(ModuleId { krate: CrateId(0), local_id: 0 }));
    assert_eq!(module_vec_get(&mods, 1), Some(ModuleId { krate: CrateId(1), local_id: 0 }));
}

#[test]
fn include_fallback_finds_module_of_original_file() {
    // file 1 is produced by an include-style macro called from file 0;
    // no module declares file 1 directly
    let mut db = base_db();
    db.files.push(SyntaxTree { nodes: vec![node(SyntaxKind::SourceFile, None)] });
    db.files.push(SyntaxTree { nodes: vec![node(SyntaxKind::SourceFile, None)] });
    db.relevant_crates.push(vec![CrateId(0)]);
    db.relevant_crates.push(vec![CrateId(0)]);
    db.macro_calls.push(MacroCallData {
        def_ast: MacroDefAst::Decl(InFile {
            file_id: HirFileId::File(FileId(0)),
            value: ptr(SyntaxKind::MacroRules, 0),
        }),
        call_file: HirFileId::File(FileId(0)),
    });
    db.crates.push(CrateData {
        modules: vec![empty_module(ModuleOrigin::CrateRoot { definition: FileId(0) })],
        include_invocations: vec![(MacroCallId(0), FileId(1))],
    });
    let mut cache = SourceToDefCache::new();
    let mods = cache.file_to_def(&db, FileId(1));
    assert_eq!(module_vec_len(&mods), 1);
    assert_eq!(module_vec_get(&mods, 0), Some(ModuleId { krate: CrateId(0), local_id: 0 }));
}

#[test]
fn dyn_map_typed_store() {
    let mut m = DynMap::new();
    let p = ptr(SyntaxKind::Struct, 7);
    assert!(m.is_empty(KeyKind::Struct));
    m.insert_fwd(KeyKind::Struct, p, DefValue::Struct(StructId(3)));
    assert_eq!(m.get_fwd(KeyKind::Struct, p), Some(DefValue::Struct(StructId(3))));
    // a different key kind does not see the entry
    assert_eq!(m.get_fwd(KeyKind::Union, p), None);
    assert!(!m.is_empty(KeyKind::Struct));
    // later insertions shadow earlier ones
    m.insert_fwd(KeyKind::Struct, p, DefValue::Struct(StructId(4)));
    assert_eq!(m.get_fwd(KeyKind::Struct, p), Some(DefValue::Struct(StructId(4))));
}

#[test]
fn def_id_policy_reverse_store() {
    let mut m = DynMap::new();
    let policy = DefIdPolicy { key: KeyKind::Enum };
    assert!(policy.is_empty(&m));
    policy.insert(&mut m, DefValue::Enum(EnumId(9)), ptr(SyntaxKind::Enum, 2));
    assert_eq!(policy.get(&m, &DefValue::Enum(EnumId(9))), Some(ptr(SyntaxKind::Enum, 2)));
    assert_eq!(policy.get(&m, &DefValue::Enum(EnumId(8))), None);
    assert!(!policy.is_empty(&m));
}

#[test]
fn def_to_src_cache_serves_cached_pointer() {
    let mut ctx = DefToSrcCacheContext::new();
    let policy = DefIdPolicy { key: KeyKind::Struct };
    assert_eq!(ctx.entry(policy, DefValue::Struct(StructId(0))), None);
    let p = ptr(SyntaxKind::Struct, 1);
    let got = ctx.get_or_inset_with(policy, DefValue::Struct(StructId(0)), p);
    assert_eq!(got, p);
    assert_eq!(ctx.entry(policy, DefValue::Struct(StructId(0))), Some(p));
    // a second request with a different fallback still serves the first
    let got2 = ctx.get_or_inset_with(policy, DefValue::Struct(StructId(0)), ptr(SyntaxKind::Struct, 9));
    assert_eq!(got2, p);
}

#[test]
fn cached_source_equals_recorded_source() {
    let db = struct_db();
    let mut ctx = DefToSrcCacheContext::new();
    let direct = StructId(0).ast_ptr(&db);
    let cached = StructId(0).ast_ptr_with(&db, &mut ctx);
    let again = StructId(0).ast_ptr_with(&db, &mut ctx);
    assert_eq!(direct.value, cached.value);
    assert_eq!(cached.value, again.value);
    assert_eq!(StructId(0).source(&db).value, 1);
}

fn module_tree_db() -> Database {
    // file 0: root with `mod a { ... }` (inline, named 5); the inline module
    // holds a function
    let mut db = base_db();
    db.files.push(SyntaxTree {
        nodes: vec![
            node(SyntaxKind::SourceFile, None),
            named_node(SyntaxKind::Module, Some(0), 5),
            node(SyntaxKind::ItemList, Some(1)),
            node(SyntaxKind::Fn, Some(2)),
        ],
    });
    db.relevant_crates.push(vec![CrateId(0)]);
    let mut root = empty_module(ModuleOrigin::CrateRoot { definition: FileId(0) });
    root.children.push((5, 1));
    let mut inner = empty_module(ModuleOrigin::Inline {
        definition: InFile {
            file_id: HirFileId::File(FileId(0)),
            value: ptr(SyntaxKind::Module, 1),
        },
    });
    inner.parent = Some(0);
    inner.scope.push(ItemId::FunctionId(FunctionId(0)));
    db.crates.push(CrateData { modules: vec![root, inner], include_invocations: vec![] });
    db.functions.push(FunctionData {
        loc: ItemLoc { file_id: HirFileId::File(FileId(0)), ptr: ptr(SyntaxKind::Fn, 3) },
        body: empty_body(),
        generics: GenericParams { n_type_or_consts: 0, n_lifetimes: 0 },
    });
    db
}

#[test]
fn fn_inside_inline_module_resolves_through_module() {
    let db = module_tree_db();
    let mut cache = SourceToDefCache::new();
    let found = cache.find_container(&db, InFile { file_id: HirFileId::File(FileId(0)), value: 3 });
    assert_eq!(
        found,
        Some(ChildContainer::ModuleId(ModuleId { krate: CrateId(0), local_id: 1 }))
    );
    let src = InFile { file_id: HirFileId::File(FileId(0)), value: ptr(SyntaxKind::Fn, 3) };
    assert_eq!(cache.fn_to_def(&db, src), Some(FunctionId(0)));
    // the module declaration node itself resolves to the inner module
    let m = cache.module_to_def(&db, InFile { file_id: HirFileId::File(FileId(0)), value: 1 });
    assert_eq!(m, Some(ModuleId { krate: CrateId(0), local_id: 1 }));
}

#[test]
fn module_source_accessors() {
    let db = module_tree_db();
    let root = Module { id: ModuleId { krate: CrateId(0), local_id: 0 } };
    let inner = Module { id: ModuleId { krate: CrateId(0), local_id: 1 } };
    assert!(!root.is_inline(&db));
    assert!(inner.is_inline(&db));
    assert!(!root.is_mod_rs(&db));
    assert_eq!(root.as_source_file_id(&db), Some(FileId(0)));
    assert_eq!(inner.as_source_file_id(&db), None);
    assert_eq!(root.declaration_source(&db), None);
    let decl = inner.declaration_source(&db).expect("inline module is declared");
    assert_eq!(decl.value, ptr(SyntaxKind::Module, 1));
    match root.definition_source(&db).value {
        ModuleSourcePtr::SourceFile(p) => assert_eq!(p, ptr(SyntaxKind::SourceFile, 0)),
        other => panic!("root module should be file-defined: {:?}", other),
    }
    assert_eq!(root.definition_source_file_id(&db), HirFileId::File(FileId(0)));
    let range = root.definition_source_range(&db);
    assert_eq!(range.value, TextRange { start: 0, end: 0 });
}

fn body_db() -> Database {
    // fn with one binding pattern, one label, and a `self` parameter
    let mut db = base_db();
    db.files.push(SyntaxTree {
        nodes: vec![
            node(SyntaxKind::SourceFile, None),
            node(SyntaxKind::Fn, Some(0)),
            node(SyntaxKind::ParamList, Some(1)),
            node(SyntaxKind::SelfParam, Some(2)),
            node(SyntaxKind::Param, Some(2)),
            node(SyntaxKind::BlockExpr, Some(1)),
            node(SyntaxKind::IdentPat, Some(5)),
            node(SyntaxKind::Label, Some(5)),
        ],
    });
    db.relevant_crates.push(vec![CrateId(0)]);
    let mut root = empty_module(ModuleOrigin::CrateRoot { definition: FileId(0) });
    root.scope.push(ItemId::FunctionId(FunctionId(0)));
    db.crates.push(CrateData { modules: vec![root], include_invocations: vec![] });
    db.functions.push(FunctionData {
        loc: ItemLoc { file_id: HirFileId::File(FileId(0)), ptr: ptr(SyntaxKind::Fn, 1) },
        body: BodyData {
            bindings: vec![ptr(SyntaxKind::SelfParam, 3), ptr(SyntaxKind::IdentPat, 6)],
            self_param: Some(0),
            labels: vec![ptr(SyntaxKind::Label, 7)],
            blocks: vec![],
            exprs: vec![],
        },
        generics: GenericParams { n_type_or_consts: 0, n_lifetimes: 0 },
    });
    db
}

#[test]
fn bind_pat_and_label_resolve_to_body() {
    let db = body_db();
    let mut cache = SourceToDefCache::new();
    let owner = DefWithBodyId::FunctionId(FunctionId(0));
    let pat = InFile { file_id: HirFileId::File(FileId(0)), value: ptr(SyntaxKind::IdentPat, 6) };
    assert_eq!(cache.bind_pat_to_def(&db, pat), Some((owner, BindingId(1))));
    let label = InFile { file_id: HirFileId::File(FileId(0)), value: ptr(SyntaxKind::Label, 7) };
    assert_eq!(cache.label_to_def(&db, label), Some((owner, LabelId(0))));
    let selfp = InFile {
        file_id: HirFileId::File(FileId(0)),
        value: ptr(SyntaxKind::SelfParam, 3),
    };
    assert_eq!(cache.self_param_to_def(&db, selfp), Some((owner, BindingId(0))));
    // a pattern pointer the body never recorded resolves to nothing
    let stray = InFile { file_id: HirFileId::File(FileId(0)), value: ptr(SyntaxKind::IdentPat, 5) };
    assert_eq!(cache.bind_pat_to_def(&db, stray), None);
}

#[test]
fn param_sources_follow_self_shift() {
    let db = body_db();
    let self_src = SelfParam { func: FunctionId(0) }.source(&db).expect("has self");
    assert_eq!(self_src.value, ptr(SyntaxKind::SelfParam, 3));
    let p0 = Param { func: Callee::Def(CallableDefId::FunctionId(FunctionId(0))), idx: 0 };
    assert_eq!(p0.source(&db).unwrap().value, ptr(SyntaxKind::SelfParam, 3));
    let p1 = Param { func: Callee::Def(CallableDefId::FunctionId(FunctionId(0))), idx: 1 };
    assert_eq!(p1.source(&db).unwrap().value, ptr(SyntaxKind::Param, 4));
    let p2 = Param { func: Callee::Def(CallableDefId::FunctionId(FunctionId(0))), idx: 2 };
    assert_eq!(p2.source(&db), None);
    let label_src = Label { parent: DefWithBodyId::FunctionId(FunctionId(0)), label_id: LabelId(0) }
        .source(&db)
        .expect("label has syntax");
    assert_eq!(label_src.value, ptr(SyntaxKind::Label, 7));
}

fn enum_db() -> Database {
    let mut db = base_db();
    db.files.push(SyntaxTree {
        nodes: vec![
            node(SyntaxKind::SourceFile, None),
            node(SyntaxKind::Enum, Some(0)),
            node(SyntaxKind::VariantList, Some(1)),
            node(SyntaxKind::Variant, Some(2)),
        ],
    });
    db.relevant_crates.push(vec![CrateId(0)]);
    let mut root = empty_module(ModuleOrigin::CrateRoot { definition: FileId(0) });
    root.scope.push(ItemId::EnumId(EnumId(0)));
    db.crates.push(CrateData { modules: vec![root], include_invocations: vec![] });
    db.enums.push(EnumData {
        loc: ItemLoc { file_id: HirFileId::File(FileId(0)), ptr: ptr(SyntaxKind::Enum, 1) },
        generics: GenericParams { n_type_or_consts: 0, n_lifetimes: 0 },
        variants: vec![EnumVariantId(0)],
    });
    db.enum_variants.push(EnumVariantData {
        loc: ItemLoc { file_id: HirFileId::File(FileId(0)), ptr: ptr(SyntaxKind::Variant, 3) },
        body: empty_body(),
    });
    db
}

#[test]
fn enum_variant_resolves_through_enum_container() {
    let db = enum_db();
    let mut cache = SourceToDefCache::new();
    let src = InFile { file_id: HirFileId::File(FileId(0)), value: ptr(SyntaxKind::Variant, 3) };
    assert_eq!(cache.enum_variant_to_def(&db, src), Some(EnumVariantId(0)));
    let found = cache.find_container(&db, InFile { file_id: HirFileId::File(FileId(0)), value: 3 });
    assert_eq!(found, Some(ChildContainer::EnumId(EnumId(0))));
}

#[test]
fn attr_macro_and_derive_lookup() {
    let mut db = struct_db();
    // give the struct's module an attribute call on the struct item and a
    // derive on an attribute node
    db.files[0].nodes.push(node(SyntaxKind::Attr, Some(1)));
    db.macro_calls.push(MacroCallData {
        def_ast: MacroDefAst::Decl(InFile {
            file_id: HirFileId::File(FileId(0)),
            value: ptr(SyntaxKind::MacroRules, 0),
        }),
        call_file: HirFileId::File(FileId(0)),
    });
    db.derive_defs.push(DeriveData {
        attr_id: AttrId(0),
        call: MacroCallId(0),
        sub_calls: vec![Some(MacroCallId(0)), None],
    });
    let item_ptr = InFile { file_id: HirFileId::File(FileId(0)), value: ptr(SyntaxKind::Struct, 1) };
    db.crates[0].modules[0].attr_calls.push((item_ptr, MacroCallId(0)));
    let attr_ptr = ptr(SyntaxKind::Attr, 5);
    db.crates[0].modules[0]
        .derive_calls
        .push((InFile { file_id: HirFileId::File(FileId(0)), value: attr_ptr }, DeriveId(0)));

    let mut cache = SourceToDefCache::new();
    assert_eq!(cache.item_to_macro_call(&db, item_ptr), Some(MacroCallId(0)));
    assert!(cache.has_derives(&db, item_ptr));
    let (attr_id, call, subs) = cache
        .attr_to_derive_macro_call(&db, item_ptr, attr_ptr)
        .expect("derive recorded");
    assert_eq!(attr_id, AttrId(0));
    assert_eq!(call, MacroCallId(0));
    assert_eq!(subs, vec![Some(MacroCallId(0)), None]);
}

#[test]
fn macro_call_to_macro_id_resolves_definition() {
    // a macro_rules! definition in the root module, and a call of it
    let mut db = base_db();
    db.files.push(SyntaxTree {
        nodes: vec![node(SyntaxKind::SourceFile, None), node(SyntaxKind::MacroRules, Some(0))],
    });
    db.relevant_crates.push(vec![CrateId(0)]);
    let mut root = empty_module(ModuleOrigin::CrateRoot { definition: FileId(0) });
    root.scope.push(ItemId::MacroRulesId(hir_source_map::ids::MacroRulesId(0)));
    db.crates.push(CrateData { modules: vec![root], include_invocations: vec![] });
    db.macro_rules_defs.push(PlainItemData {
        loc: ItemLoc {
            file_id: HirFileId::File(FileId(0)),
            ptr: ptr(SyntaxKind::MacroRules, 1),
        },
    });
    db.macro_calls.push(MacroCallData {
        def_ast: MacroDefAst::Decl(InFile {
            file_id: HirFileId::File(FileId(0)),
            value: ptr(SyntaxKind::MacroRules, 1),
        }),
        call_file: HirFileId::File(FileId(0)),
    });
    let mut cache = SourceToDefCache::new();
    assert_eq!(
        cache.macro_call_to_macro_id(&db, MacroCallId(0)),
        Some(MacroId::MacroRulesId(hir_source_map::ids::MacroRulesId(0)))
    );
}

#[test]
fn use_child_source_lists_flattened_trees() {
    let mut db = base_db();
    db.files.push(SyntaxTree {
        nodes: vec![
            node(SyntaxKind::SourceFile, None),
            node(SyntaxKind::Use, Some(0)),
            node(SyntaxKind::UseTree, Some(1)),
            node(SyntaxKind::UseTree, Some(2)),
        ],
    });
    db.relevant_crates.push(vec![CrateId(0)]);
    db.crates.push(CrateData {
        modules: vec![empty_module(ModuleOrigin::CrateRoot { definition: FileId(0) })],
        include_invocations: vec![],
    });
    db.uses.push(UseData {
        loc: ItemLoc { file_id: HirFileId::File(FileId(0)), ptr: ptr(SyntaxKind::Use, 1) },
        use_trees: vec![ptr(SyntaxKind::UseTree, 2), ptr(SyntaxKind::UseTree, 3)],
    });
    let pairs: InFile<Vec<(UseTreeIdx, AstPtr)>> =
        <UseId as HasChildSource<UseTreeIdx>>::child_source(UseId(0), &db);
    assert_eq!(pairs.value.len(), 2);
    assert_eq!(pairs.value[0], (UseTreeIdx(0), ptr(SyntaxKind::UseTree, 2)));
    assert_eq!(pairs.value[1], (UseTreeIdx(1), ptr(SyntaxKind::UseTree, 3)));
}

#[test]
fn struct_in_fn_body_resolves_through_block_scope() {
    // fn f() { struct S; } — the struct's container is the function's body,
    // reached through the block's module scope
    let mut db = base_db();
    db.files.push(SyntaxTree {
        nodes: vec![
            node(SyntaxKind::SourceFile, None),
            node(SyntaxKind::Fn, Some(0)),
            node(SyntaxKind::BlockExpr, Some(1)),
            node(SyntaxKind::Struct, Some(2)),
        ],
    });
    db.relevant_crates.push(vec![CrateId(0)]);
    let mut root = empty_module(ModuleOrigin::CrateRoot { definition: FileId(0) });
    root.scope.push(ItemId::FunctionId(FunctionId(0)));
    let mut block_mod = empty_module(ModuleOrigin::BlockExpr {
        definition: InFile {
            file_id: HirFileId::File(FileId(0)),
            value: ptr(SyntaxKind::BlockExpr, 2),
        },
        block: BlockId(0),
    });
    block_mod.scope.push(ItemId::StructId(StructId(0)));
    db.crates.push(CrateData {
        modules: vec![root, block_mod],
        include_invocations: vec![],
    });
    db.functions.push(FunctionData {
        loc: ItemLoc { file_id: HirFileId::File(FileId(0)), ptr: ptr(SyntaxKind::Fn, 1) },
        body: BodyData {
            bindings: vec![],
            self_param: None,
            labels: vec![],
            blocks: vec![BlockId(0)],
            exprs: vec![],
        },
        generics: GenericParams { n_type_or_consts: 0, n_lifetimes: 0 },
    });
    db.blocks.push(BlockData {
        loc: ItemLoc {
            file_id: HirFileId::File(FileId(0)),
            ptr: ptr(SyntaxKind::BlockExpr, 2),
        },
        root_module: ModuleId { krate: CrateId(0), local_id: 1 },
    });
    db.structs.push(StructData {
        loc: ItemLoc { file_id: HirFileId::File(FileId(0)), ptr: ptr(SyntaxKind::Struct, 3) },
        generics: GenericParams { n_type_or_consts: 0, n_lifetimes: 0 },
    });
    let mut cache = SourceToDefCache::new();
    let src = InFile { file_id: HirFileId::File(FileId(0)), value: ptr(SyntaxKind::Struct, 3) };
    assert_eq!(cache.struct_to_def(&db, src), Some(StructId(0)));
    let found = cache.find_container(&db, InFile { file_id: HirFileId::File(FileId(0)), value: 3 });
    assert_eq!(
        found,
        Some(ChildContainer::DefWithBodyId(DefWithBodyId::FunctionId(FunctionId(0))))
    );
}
