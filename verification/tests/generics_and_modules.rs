//! Checks of generic-parameter enumeration, file-backed module origins and
//! associated-item resolution.

use hir_source_map::FileId;
use hir_source_map::db::{
    AssocItemId, CrateData, Database, FunctionData, GenericParams, ImplData, ItemId, ItemLoc,
    ModuleData, ModuleOrigin, StructData, TraitData,
};
use hir_source_map::dyn_map::KeyKind;
use hir_source_map::has_source::{HasChildSource, Module, TypeOrConstParam};
use hir_source_map::ids::{
    ChildContainer, CrateId, FunctionId, GenericDefId, GenericParamId, HirFileId, ImplId,
    LifetimeParamId, ModuleId, StructId, TraitId, TypeOrConstParamId, TypeParamId,
};
use hir_source_map::source_to_def::SourceToDefCache;
use hir_source_map::syntax::{
    AstPtr, InFile, SyntaxKind, SyntaxNodeData, SyntaxTree, TextRange,
};

fn gnode(kind: SyntaxKind, parent: Option<u32>) -> SyntaxNodeData {
    SyntaxNodeData { kind, parent, name: None, range: TextRange { start: 0, end: 0 } }
}

fn gptr(kind: SyntaxKind, raw: u32) -> AstPtr {
    AstPtr { kind, raw }
}

fn gbase() -> Database {
    Database {
        files: vec![],
        macro_files: vec![],
        relevant_crates: vec![],
        crates: vec![],
        macro_calls: vec![],
        derive_defs: vec![],
        functions: vec![],
        structs: vec![],
        unions: vec![],
        enums: vec![],
        enum_variants: vec![],
        consts: vec![],
        statics: vec![],
        traits: vec![],
        trait_aliases: vec![],
        type_aliases: vec![],
        impls: vec![],
        uses: vec![],
        extern_crates: vec![],
        extern_blocks: vec![],
        macro2s: vec![],
        macro_rules_defs: vec![],
        proc_macros: vec![],
        blocks: vec![],
        closures: vec![],
    }
}

fn groot(scope: Vec<ItemId>) -> ModuleData {
    ModuleData {
        origin: ModuleOrigin::CrateRoot { definition: FileId(0) },
        parent: None,
        children: vec![],
        scope,
        macro_calls: vec![],
        attr_calls: vec![],
        derive_calls: vec![],
    }
}

/// `struct S<'a, T, const N: usize>`: one lifetime, one type and one const
/// parameter, written in the parameter list.
fn generic_struct_db() -> Database {
    let mut db = gbase();
    db.files.push(SyntaxTree {
        nodes: vec![
            gnode(SyntaxKind::SourceFile, None),
            gnode(SyntaxKind::Struct, Some(0)),
            gnode(SyntaxKind::GenericParamList, Some(1)),
            gnode(SyntaxKind::LifetimeParam, Some(2)),
            gnode(SyntaxKind::TypeParam, Some(2)),
            gnode(SyntaxKind::ConstParam, Some(2)),
        ],
    });
    db.relevant_crates.push(vec![CrateId(0)]);
    db.crates.push(CrateData {
        modules: vec![groot(vec![ItemId::StructId(StructId(0))])],
        include_invocations: vec![],
    });
    db.structs.push(StructData {
        loc: ItemLoc { file_id: HirFileId::File(FileId(0)), ptr: gptr(SyntaxKind::Struct, 1) },
        generics: GenericParams { n_type_or_consts: 2, n_lifetimes: 1 },
    });
    db
}

#[test]
fn explicit_generic_params_resolve_in_order() {
    let db = generic_struct_db();
    let mut cache = SourceToDefCache::new();
    let g = GenericDefId::AdtId(hir_source_map::ids::AdtId::StructId(StructId(0)));
    let tp = InFile {
        file_id: HirFileId::File(FileId(0)),
        value: gptr(SyntaxKind::TypeParam, 4),
    };
    assert_eq!(
        cache.type_param_to_def(&db, tp),
        Some(TypeParamId(TypeOrConstParamId { parent: g, local_id: 0 }))
    );
    let cp = InFile {
        file_id: HirFileId::File(FileId(0)),
        value: gptr(SyntaxKind::ConstParam, 5),
    };
    match cache.generic_param_to_def(&db, cp) {
        Some(GenericParamId::ConstParamId(id)) => {
            assert_eq!(id.0, TypeOrConstParamId { parent: g, local_id: 1 });
        },
        other => panic!("const parameter should resolve: {:?}", other),
    }
    let lp = InFile {
        file_id: HirFileId::File(FileId(0)),
        value: gptr(SyntaxKind::LifetimeParam, 3),
    };
    assert_eq!(
        cache.lifetime_param_to_def(&db, lp),
        Some(LifetimeParamId { parent: g, local_id: 0 })
    );
    // a pointer past the lowered parameter count resolves to nothing
    let stray = InFile {
        file_id: HirFileId::File(FileId(0)),
        value: gptr(SyntaxKind::TypeParam, 5),
    };
    assert_eq!(cache.type_param_to_def(&db, stray), None);
}

#[test]
fn type_or_const_param_sources() {
    let db = generic_struct_db();
    let g = GenericDefId::AdtId(hir_source_map::ids::AdtId::StructId(StructId(0)));
    let first = TypeOrConstParam { id: TypeOrConstParamId { parent: g, local_id: 0 } };
    assert_eq!(first.source(&db).unwrap().value, gptr(SyntaxKind::TypeParam, 4));
    let second = TypeOrConstParam { id: TypeOrConstParamId { parent: g, local_id: 1 } };
    assert_eq!(second.source(&db).unwrap().value, gptr(SyntaxKind::ConstParam, 5));
    let missing = TypeOrConstParam { id: TypeOrConstParamId { parent: g, local_id: 2 } };
    assert_eq!(missing.source(&db), None);
    let pairs = <GenericDefId as HasChildSource<TypeOrConstParamId>>::child_source(g, &db);
    assert_eq!(pairs.value.len(), 2);
    assert_eq!(pairs.value[0].0.local_id, 0);
    assert_eq!(pairs.value[1].0.local_id, 1);
}

/// A `mod b;` module backed by its own `mod.rs`-style file.
fn file_module_db() -> Database {
    let mut db = gbase();
    // file 0: the crate root holding `mod b;`
    db.files.push(SyntaxTree {
        nodes: vec![
            gnode(SyntaxKind::SourceFile, None),
            SyntaxNodeData {
                kind: SyntaxKind::Module,
                parent: Some(0),
                name: Some(7),
                range: TextRange { start: 4, end: 10 },
            },
        ],
    });
    // file 1: the module's own file
    db.files.push(SyntaxTree { nodes: vec![gnode(SyntaxKind::SourceFile, None)] });
    db.relevant_crates.push(vec![CrateId(0)]);
    db.relevant_crates.push(vec![CrateId(0)]);
    let mut root = groot(vec![]);
    root.children.push((7, 1));
    let sub = ModuleData {
        origin: ModuleOrigin::File {
            declaration: InFile {
                file_id: HirFileId::File(FileId(0)),
                value: gptr(SyntaxKind::Module, 1),
            },
            definition: FileId(1),
            is_mod_rs: true,
        },
        parent: Some(0),
        children: vec![],
        scope: vec![],
        macro_calls: vec![],
        attr_calls: vec![],
        derive_calls: vec![],
    };
    db.crates.push(CrateData { modules: vec![root, sub], include_invocations: vec![] });
    db
}

#[test]
fn file_backed_module_origin() {
    let db = file_module_db();
    let sub = Module { id: ModuleId { krate: CrateId(0), local_id: 1 } };
    assert!(sub.is_mod_rs(&db));
    assert!(!sub.is_inline(&db));
    assert_eq!(sub.as_source_file_id(&db), Some(FileId(1)));
    let decl = sub.declaration_source(&db).expect("declared by `mod b;`");
    assert_eq!(decl.file_id, HirFileId::File(FileId(0)));
    assert_eq!(decl.value, gptr(SyntaxKind::Module, 1));
    let range = sub.declaration_source_range(&db).expect("declared");
    assert_eq!(range.value, TextRange { start: 4, end: 10 });
    assert_eq!(sub.definition_source_file_id(&db), HirFileId::File(FileId(1)));
}

#[test]
fn module_declaration_resolves_to_child_module() {
    let db = file_module_db();
    let mut cache = SourceToDefCache::new();
    let m = cache.module_to_def(&db, InFile { file_id: HirFileId::File(FileId(0)), value: 1 });
    assert_eq!(m, Some(ModuleId { krate: CrateId(0), local_id: 1 }));
    // and an item at the top of the module's own file is owned by that
    // module
    let found = cache.find_container(&db, InFile { file_id: HirFileId::File(FileId(1)), value: 0 });
    assert_eq!(
        found,
        Some(ChildContainer::ModuleId(ModuleId { krate: CrateId(0), local_id: 1 }))
    );
}

/// A trait with one method and an impl with one method.
fn assoc_db() -> Database {
    let mut db = gbase();
    db.files.push(SyntaxTree {
        nodes: vec![
            gnode(SyntaxKind::SourceFile, None),
            gnode(SyntaxKind::Trait, Some(0)),
            gnode(SyntaxKind::Fn, Some(1)),
            gnode(SyntaxKind::Impl, Some(0)),
            gnode(SyntaxKind::Fn, Some(3)),
        ],
    });
    db.relevant_crates.push(vec![CrateId(0)]);
    db.crates.push(CrateData {
        modules: vec![groot(vec![
            ItemId::TraitId(TraitId(0)),
            ItemId::ImplId(ImplId(0)),
        ])],
        include_invocations: vec![],
    });
    db.traits.push(TraitData {
        loc: ItemLoc { file_id: HirFileId::File(FileId(0)), ptr: gptr(SyntaxKind::Trait, 1) },
        generics: GenericParams { n_type_or_consts: 1, n_lifetimes: 0 },
        items: vec![AssocItemId::FunctionId(FunctionId(0))],
    });
    db.impls.push(ImplData {
        loc: ItemLoc { file_id: HirFileId::File(FileId(0)), ptr: gptr(SyntaxKind::Impl, 3) },
        generics: GenericParams { n_type_or_consts: 0, n_lifetimes: 0 },
        items: vec![AssocItemId::FunctionId(FunctionId(1))],
    });
    let body = hir_source_map::db::BodyData {
        bindings: vec![],
        self_param: None,
        labels: vec![],
        blocks: vec![],
        exprs: vec![],
    };
    db.functions.push(FunctionData {
        loc: ItemLoc { file_id: HirFileId::File(FileId(0)), ptr: gptr(SyntaxKind::Fn, 2) },
        body,
        generics: GenericParams { n_type_or_consts: 0, n_lifetimes: 0 },
    });
    let body2 = hir_source_map::db::BodyData {
        bindings: vec![],
        self_param: None,
        labels: vec![],
        blocks: vec![],
        exprs: vec![],
    };
    db.functions.push(FunctionData {
        loc: ItemLoc { file_id: HirFileId::File(FileId(0)), ptr: gptr(SyntaxKind::Fn, 4) },
        body: body2,
        generics: GenericParams { n_type_or_consts: 0, n_lifetimes: 0 },
    });
    db
}

#[test]
fn assoc_items_resolve_through_their_containers() {
    let db = assoc_db();
    let mut cache = SourceToDefCache::new();
    let trait_fn = InFile { file_id: HirFileId::File(FileId(0)), value: gptr(SyntaxKind::Fn, 2) };
    assert_eq!(cache.fn_to_def(&db, trait_fn), Some(FunctionId(0)));
    assert_eq!(
        cache.find_container(&db, InFile { file_id: HirFileId::File(FileId(0)), value: 2 }),
        Some(ChildContainer::TraitId(TraitId(0)))
    );
    let impl_fn = InFile { file_id: HirFileId::File(FileId(0)), value: gptr(SyntaxKind::Fn, 4) };
    assert_eq!(cache.fn_to_def(&db, impl_fn), Some(FunctionId(1)));
    assert_eq!(
        cache.find_container(&db, InFile { file_id: HirFileId::File(FileId(0)), value: 4 }),
        Some(ChildContainer::ImplId(ImplId(0)))
    );
}

#[test]
fn generic_container_walk_skips_non_owners() {
    // the trait method's type-parameter container is the function itself if
    // it had one; here the function has none, so a stray type-parameter
    // pointer under it resolves to nothing rather than to the trait's `Self`
    let db = assoc_db();
    let mut cache = SourceToDefCache::new();
    let stray = InFile {
        file_id: HirFileId::File(FileId(0)),
        value: gptr(SyntaxKind::TypeParam, 2),
    };
    assert_eq!(cache.type_param_to_def(&db, stray), None);
}
