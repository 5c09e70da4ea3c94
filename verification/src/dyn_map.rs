//! The Identity Map: a strongly-keyed multi-map associating semantic
//! definition identifiers with structural syntax pointers.
//!
//! Associations are grouped by a key descriptor (one per declared key/value
//! pair); a key's backing store is allocated lazily on first insertion.  The
//! forward direction maps a pointer to a definition (used when resolving
//! syntax to semantics), the reverse direction maps a definition to its
//! pointer (used when caching semantics-to-syntax lookups).  Maps are built
//! once per (container, file) and never mutated piecemeal afterwards.

use vstd::prelude::*;
use crate::ids::{
    AttrId, BlockId, ConstId, DeriveId, EnumId, EnumVariantId, ExternBlockId, ExternCrateId,
    FieldId, FunctionId, ImplId, LifetimeParamId, Macro2Id, MacroCallId, MacroRulesId,
    ProcMacroId, StaticId, StructId, TraitAliasId, TraitId, TypeAliasId, TypeOrConstParamId,
    UnionId, UseId,
};
use crate::syntax::AstPtr;

verus! {

/// The declared key/value pairs of the Identity Map, one tag per pair.
#[derive(Clone, Copy, PartialEq, Eq, Hash, Debug, Structural)]
pub enum KeyKind {
    Block,
    Function,
    Const,
    Static,
    TypeAlias,
    Impl,
    Trait,
    TraitAlias,
    Struct,
    Union,
    Enum,
    ExternCrate,
    ExternBlock,
    Use,
    EnumVariant,
    TupleField,
    RecordField,
    TypeParam,
    ConstParam,
    LifetimeParam,
    MacroRules,
    Macro2,
    ProcMacro,
    MacroCall,
    AttrMacroCall,
    DeriveMacroCall,
}

/// A stored definition identifier, tagged by kind.
#[derive(Clone, Copy, PartialEq, Eq, Hash, Debug, Structural)]
pub enum DefValue {
    Block(BlockId),
    Function(FunctionId),
    Const(ConstId),
    Static(StaticId),
    TypeAlias(TypeAliasId),
    Impl(ImplId),
    Trait(TraitId),
    TraitAlias(TraitAliasId),
    Struct(StructId),
    Union(UnionId),
    Enum(EnumId),
    ExternCrate(ExternCrateId),
    ExternBlock(ExternBlockId),
    Use(UseId),
    EnumVariant(EnumVariantId),
    Field(FieldId),
    TypeOrConstParam(TypeOrConstParamId),
    LifetimeParam(LifetimeParamId),
    MacroRules(MacroRulesId),
    Macro2(Macro2Id),
    ProcMacro(ProcMacroId),
    MacroCall(MacroCallId),
    /// An expanded derive attribute; its attribute index and calls are
    /// interned behind the id.
    Derive(AttrId, MacroCallId, DeriveId),
}

/// One lazily-allocated backing store of the forward direction.
pub struct FwdBucket {
    pub key: KeyKind,
    pub entries: Vec<(AstPtr, DefValue)>,
}

/// One lazily-allocated backing store of the reverse direction.
pub struct RevBucket {
    pub key: KeyKind,
    pub entries: Vec<(DefValue, AstPtr)>,
}

/// Association lookup, later entries shadowing earlier ones.
pub open spec fn assoc_fwd(s: Seq<(AstPtr, DefValue)>, k: AstPtr) -> Option<DefValue>
    decreases s.len(),
{
    if s.len() == 0 {
        None
    } else if s.last().0 == k {
        Some(s.last().1)
    } else {
        assoc_fwd(s.drop_last(), k)
    }
}

pub open spec fn assoc_rev(s: Seq<(DefValue, AstPtr)>, k: DefValue) -> Option<AstPtr>
    decreases s.len(),
{
    if s.len() == 0 {
        None
    } else if s.last().0 == k {
        Some(s.last().1)
    } else {
        assoc_rev(s.drop_last(), k)
    }
}

pub open spec fn buckets_fwd(bs: Seq<FwdBucket>, key: KeyKind, ptr: AstPtr) -> Option<DefValue>
    decreases bs.len(),
{
    if bs.len() == 0 {
        None
    } else if bs.last().key == key {
        assoc_fwd(bs.last().entries@, ptr)
    } else {
        buckets_fwd(bs.drop_last(), key, ptr)
    }
}

pub open spec fn buckets_rev(bs: Seq<RevBucket>, key: KeyKind, def: DefValue) -> Option<AstPtr>
    decreases bs.len(),
{
    if bs.len() == 0 {
        None
    } else if bs.last().key == key {
        assoc_rev(bs.last().entries@, def)
    } else {
        buckets_rev(bs.drop_last(), key, def)
    }
}

/// The Identity Map.
pub struct DynMap {
    pub fwd: Vec<FwdBucket>,
    pub rev: Vec<RevBucket>,
}

impl DynMap {
    /// At most one backing store exists per key kind and direction.
    pub open spec fn wf(self) -> bool {
        &&& forall|i: int, j: int|
            0 <= i < j < self.fwd.len() ==> (#[trigger] self.fwd[i].key) != (
            #[trigger] self.fwd[j].key)
        &&& forall|i: int, j: int|
            0 <= i < j < self.rev.len() ==> (#[trigger] self.rev[i].key) != (
            #[trigger] self.rev[j].key)
    }

    /// The association stored forward under a key kind and pointer.
    pub open spec fn spec_fwd(self, key: KeyKind, ptr: AstPtr) -> Option<DefValue> {
        buckets_fwd(self.fwd@, key, ptr)
    }

    /// The association stored in reverse under a key kind and definition.
    pub open spec fn spec_rev(self, key: KeyKind, def: DefValue) -> Option<AstPtr> {
        buckets_rev(self.rev@, key, def)
    }

    /// Two maps agreeing pointwise in both directions.
    pub open spec fn same_model(self, other: DynMap) -> bool {
        &&& forall|key: KeyKind, ptr: AstPtr| #[trigger] self.spec_fwd(key, ptr) == other.spec_fwd(
            key,
            ptr,
        )
        &&& forall|key: KeyKind, def: DefValue| #[trigger] self.spec_rev(key, def)
            == other.spec_rev(key, def)
    }

    pub fn new() -> (r: DynMap)
        ensures
            r.wf(),
            forall|key: KeyKind, ptr: AstPtr| #[trigger] r.spec_fwd(key, ptr) is None,
            forall|key: KeyKind, def: DefValue| #[trigger] r.spec_rev(key, def) is None,
    {
        DynMap { fwd: Vec::new(), rev: Vec::new() }
    }

    /// Add a forward association; on first use of a key kind its backing
    /// store is allocated.
    #[verifier::loop_isolation(false)]
    pub fn insert_fwd(&mut self, key: KeyKind, ptr: AstPtr, value: DefValue)
        requires
            old(self).wf(),
        ensures
            final(self).wf(),
            forall|k2: KeyKind, p2: AstPtr| #[trigger] final(self).spec_fwd(k2, p2) == if k2 == key
                && p2 == ptr {
                Some(value)
            } else {
                old(self).spec_fwd(k2, p2)
            },
            forall|k2: KeyKind, d2: DefValue| #[trigger] final(self).spec_rev(k2, d2) == old(
                self,
            ).spec_rev(k2, d2),
    {
        let ghost old_fwd = self.fwd@;
        let mut j: usize = 0;
        loop
            invariant
                0 <= j <= self.fwd.len(),
                forall|i: int| 0 <= i < j ==> (#[trigger] self.fwd[i].key) != key,
                self.fwd@ == old_fwd,
                self.rev@ == old(self).rev@,
                old(self).wf(),
                *self == *old(self),
            decreases self.fwd.len() - j,
        {
            if j == self.fwd.len() {
                let mut entries: Vec<(AstPtr, DefValue)> = Vec::new();
                entries.push((ptr, value));
                self.fwd.push(FwdBucket { key, entries });
                proof {
                    lemma_buckets_fwd_absent(old_fwd, key);
                    assert(self.fwd@.drop_last() =~= old_fwd);
                    assert forall|k2: KeyKind, p2: AstPtr| #[trigger]
                        buckets_fwd(self.fwd@, k2, p2) == if k2 == key && p2 == ptr {
                            Some(value)
                        } else {
                            buckets_fwd(old_fwd, k2, p2)
                        } by {
                        if k2 == key {
                            assert(self.fwd@.last().entries@ =~= seq![(ptr, value)]);
                            assert(self.fwd@.last().entries@.drop_last() =~= Seq::<
                                (AstPtr, DefValue),
                            >::empty());
                            assert(assoc_fwd(
                                Seq::<(AstPtr, DefValue)>::empty(),
                                p2,
                            ) is None);
                            assert(buckets_fwd(old_fwd, key, p2) is None);
                        }
                    }
                }
                return ;
            }
            if self.fwd[j].key == key {
                let mut bucket = self.fwd.remove(j);
                bucket.entries.push((ptr, value));
                self.fwd.insert(j, bucket);
                proof {
                    assert(self.fwd@ =~= old_fwd.update(
                        j as int,
                        FwdBucket {
                            key: old_fwd[j as int].key,
                            entries: self.fwd[j as int].entries,
                        },
                    ));
                    assert(self.fwd@[j as int].entries@ =~= old_fwd[j as int].entries@.push(
                        (ptr, value),
                    ));
                    lemma_buckets_fwd_update(old_fwd, self.fwd@, j as int, key, ptr, value);
                    assert forall|i: int, i2: int|
                        0 <= i < i2 < self.fwd.len() implies (#[trigger] self.fwd[i].key) != (
                    #[trigger] self.fwd[i2].key) by {
                        assert(self.fwd[i].key == old_fwd[i].key);
                        assert(self.fwd[i2].key == old_fwd[i2].key);
                    }
                }
                return ;
            }
            j += 1;
        }
    }

    /// Add a reverse association.
    #[verifier::loop_isolation(false)]
    pub fn insert_rev(&mut self, key: KeyKind, def: DefValue, ptr: AstPtr)
        requires
            old(self).wf(),
        ensures
            final(self).wf(),
            forall|k2: KeyKind, d2: DefValue| #[trigger] final(self).spec_rev(k2, d2) == if k2
                == key && d2 == def {
                Some(ptr)
            } else {
                old(self).spec_rev(k2, d2)
            },
            forall|k2: KeyKind, p2: AstPtr| #[trigger] final(self).spec_fwd(k2, p2) == old(
                self,
            ).spec_fwd(k2, p2),
    {
        let ghost old_rev = self.rev@;
        let mut j: usize = 0;
        loop
            invariant
                0 <= j <= self.rev.len(),
                forall|i: int| 0 <= i < j ==> (#[trigger] self.rev[i].key) != key,
                self.rev@ == old_rev,
                self.fwd@ == old(self).fwd@,
                old(self).wf(),
                *self == *old(self),
            decreases self.rev.len() - j,
        {
            if j == self.rev.len() {
                let mut entries: Vec<(DefValue, AstPtr)> = Vec::new();
                entries.push((def, ptr));
                self.rev.push(RevBucket { key, entries });
                proof {
                    lemma_buckets_rev_absent(old_rev, key);
                    assert(self.rev@.drop_last() =~= old_rev);
                    assert forall|k2: KeyKind, d2: DefValue| #[trigger]
                        buckets_rev(self.rev@, k2, d2) == if k2 == key && d2 == def {
                            Some(ptr)
                        } else {
                            buckets_rev(old_rev, k2, d2)
                        } by {
                        if k2 == key {
                            assert(self.rev@.last().entries@ =~= seq![(def, ptr)]);
                            assert(self.rev@.last().entries@.drop_last() =~= Seq::<
                                (DefValue, AstPtr),
                            >::empty());
                            assert(assoc_rev(
                                Seq::<(DefValue, AstPtr)>::empty(),
                                d2,
                            ) is None);
                            assert(buckets_rev(old_rev, key, d2) is None);
                        }
                    }
                }
                return ;
            }
            if self.rev[j].key == key {
                let mut bucket = self.rev.remove(j);
                bucket.entries.push((def, ptr));
                self.rev.insert(j, bucket);
                proof {
                    assert(self.rev@ =~= old_rev.update(
                        j as int,
                        RevBucket {
                            key: old_rev[j as int].key,
                            entries: self.rev[j as int].entries,
                        },
                    ));
                    assert(self.rev@[j as int].entries@ =~= old_rev[j as int].entries@.push(
                        (def, ptr),
                    ));
                    lemma_buckets_rev_update(old_rev, self.rev@, j as int, key, def, ptr);
                    assert forall|i: int, i2: int|
                        0 <= i < i2 < self.rev.len() implies (#[trigger] self.rev[i].key) != (
                    #[trigger] self.rev[i2].key) by {
                        assert(self.rev[i].key == old_rev[i].key);
                        assert(self.rev[i2].key == old_rev[i2].key);
                    }
                }
                return ;
            }
            j += 1;
        }
    }

    /// Look up the forward association of a pointer under a key kind.
    #[verifier::loop_isolation(false)]
    pub fn get_fwd(&self, key: KeyKind, ptr: AstPtr) -> (r: Option<DefValue>)
        requires
            self.wf(),
        ensures
            r == self.spec_fwd(key, ptr),
    {
        let mut j: usize = 0;
        loop
            invariant
                0 <= j <= self.fwd.len(),
                forall|i: int| 0 <= i < j ==> (#[trigger] self.fwd[i].key) != key,
                self.wf(),
            decreases self.fwd.len() - j,
        {
            if j == self.fwd.len() {
                proof {
                    lemma_buckets_fwd_absent(self.fwd@, key);
                }
                return None;
            }
            if self.fwd[j].key == key {
                let bucket = &self.fwd[j];
                proof {
                    lemma_buckets_fwd_found(self.fwd@, j as int, key, ptr);
                }
                let mut i: usize = bucket.entries.len();
                proof {
                    assert(bucket.entries@.subrange(0, i as int) =~= bucket.entries@);
                }
                loop
                    invariant
                        0 <= i <= bucket.entries.len(),
                        assoc_fwd(bucket.entries@, ptr) == assoc_fwd(
                            bucket.entries@.subrange(0, i as int),
                            ptr,
                        ),
                    decreases i,
                {
                    if i == 0 {
                        proof {
                            assert(bucket.entries@.subrange(0, 0) =~= Seq::<
                                (AstPtr, DefValue),
                            >::empty());
                            assert(assoc_fwd(bucket.entries@.subrange(0, 0), ptr) is None);
                        }
                        return None;
                    }
                    let e = bucket.entries[i - 1];
                    proof {
                        let s = bucket.entries@.subrange(0, i as int);
                        assert(s.drop_last() =~= bucket.entries@.subrange(0, i - 1));
                        assert(s.last() == bucket.entries@[i - 1]);
                        if e.0 == ptr {
                            assert(assoc_fwd(s, ptr) == Some(e.1));
                        } else {
                            assert(assoc_fwd(s, ptr) == assoc_fwd(s.drop_last(), ptr));
                        }
                    }
                    if e.0 == ptr {
                        return Some(e.1);
                    }
                    i -= 1;
                }
            }
            j += 1;
        }
    }

    /// Look up the reverse association of a definition under a key kind.
    #[verifier::loop_isolation(false)]
    pub fn get_rev(&self, key: KeyKind, def: DefValue) -> (r: Option<AstPtr>)
        requires
            self.wf(),
        ensures
            r == self.spec_rev(key, def),
    {
        let mut j: usize = 0;
        loop
            invariant
                0 <= j <= self.rev.len(),
                forall|i: int| 0 <= i < j ==> (#[trigger] self.rev[i].key) != key,
                self.wf(),
            decreases self.rev.len() - j,
        {
            if j == self.rev.len() {
                proof {
                    lemma_buckets_rev_absent(self.rev@, key);
                }
                return None;
            }
            if self.rev[j].key == key {
                let bucket = &self.rev[j];
                proof {
                    lemma_buckets_rev_found(self.rev@, j as int, key, def);
                }
                let mut i: usize = bucket.entries.len();
                proof {
                    assert(bucket.entries@.subrange(0, i as int) =~= bucket.entries@);
                }
                loop
                    invariant
                        0 <= i <= bucket.entries.len(),
                        assoc_rev(bucket.entries@, def) == assoc_rev(
                            bucket.entries@.subrange(0, i as int),
                            def,
                        ),
                    decreases i,
                {
                    if i == 0 {
                        proof {
                            assert(bucket.entries@.subrange(0, 0) =~= Seq::<
                                (DefValue, AstPtr),
                            >::empty());
                            assert(assoc_rev(bucket.entries@.subrange(0, 0), def) is None);
                        }
                        return None;
                    }
                    let e = bucket.entries[i - 1];
                    proof {
                        let s = bucket.entries@.subrange(0, i as int);
                        assert(s.drop_last() =~= bucket.entries@.subrange(0, i - 1));
                        assert(s.last() == bucket.entries@[i - 1]);
                        if e.0 == def {
                            assert(assoc_rev(s, def) == Some(e.1));
                        } else {
                            assert(assoc_rev(s, def) == assoc_rev(s.drop_last(), def));
                        }
                    }
                    if e.0 == def {
                        return Some(e.1);
                    }
                    i -= 1;
                }
            }
            j += 1;
        }
    }

    /// Whether any forward association of a key kind exists; the check does
    /// not allocate the key's backing store.
    #[verifier::loop_isolation(false)]
    pub fn is_empty(&self, key: KeyKind) -> (r: bool)
        requires
            self.wf(),
        ensures
            r <==> forall|ptr: AstPtr| #[trigger] self.spec_fwd(key, ptr) is None,
    {
        let mut j: usize = 0;
        loop
            invariant
                0 <= j <= self.fwd.len(),
                forall|i: int| 0 <= i < j ==> (#[trigger] self.fwd[i].key) != key,
                self.wf(),
            decreases self.fwd.len() - j,
        {
            if j == self.fwd.len() {
                proof {
                    lemma_buckets_fwd_absent(self.fwd@, key);
                }
                return true;
            }
            if self.fwd[j].key == key {
                proof {
                    lemma_buckets_fwd_found_all(self.fwd@, j as int, key);
                }
                if bucket_len(&self.fwd, j) == 0 {
                    proof {
                        assert forall|ptr: AstPtr| #[trigger]
                            self.spec_fwd(key, ptr) is None by {
                            assert(self.spec_fwd(key, ptr) == assoc_fwd(
                                self.fwd[j as int].entries@,
                                ptr,
                            ));
                        }
                    }
                    return true;
                } else {
                    let e = self.fwd[j].entries[0];
                    proof {
                        lemma_assoc_fwd_some(self.fwd[j as int].entries@, 0);
                        assert(self.spec_fwd(key, e.0) == assoc_fwd(
                            self.fwd[j as int].entries@,
                            e.0,
                        ));
                        assert(self.spec_fwd(key, e.0) is Some);
                    }
                    return false;
                }
            }
            j += 1;
        }
    }

    /// A fresh map with the same associations.
    #[verifier::loop_isolation(false)]
    pub fn duplicate(&self) -> (r: DynMap)
        requires
            self.wf(),
        ensures
            r.wf(),
            r.same_model(*self),
    {
        let mut fwd: Vec<FwdBucket> = Vec::new();
        let mut j: usize = 0;
        while j < self.fwd.len()
            invariant
                0 <= j <= self.fwd.len(),
                fwd.len() == j,
                forall|i: int|
                    0 <= i < j ==> (#[trigger] fwd[i].key) == self.fwd[i].key && fwd[i].entries@
                        == self.fwd[i].entries@,
            decreases self.fwd.len() - j,
        {
            let src = &self.fwd[j];
            let mut entries: Vec<(AstPtr, DefValue)> = Vec::new();
            let mut i: usize = 0;
            while i < src.entries.len()
                invariant
                    0 <= i <= src.entries.len(),
                    entries@ =~= src.entries@.subrange(0, i as int),
                decreases src.entries.len() - i,
            {
                entries.push(src.entries[i]);
                proof {
                    assert(entries@ =~= src.entries@.subrange(0, i + 1));
                }
                i += 1;
            }
            proof {
                assert(entries@ =~= src.entries@);
            }
            fwd.push(FwdBucket { key: src.key, entries });
            j += 1;
        }
        let mut rev: Vec<RevBucket> = Vec::new();
        let mut j2: usize = 0;
        while j2 < self.rev.len()
            invariant
                0 <= j2 <= self.rev.len(),
                rev.len() == j2,
                forall|i: int|
                    0 <= i < j2 ==> (#[trigger] rev[i].key) == self.rev[i].key && rev[i].entries@
                        == self.rev[i].entries@,
            decreases self.rev.len() - j2,
        {
            let src = &self.rev[j2];
            let mut entries: Vec<(DefValue, AstPtr)> = Vec::new();
            let mut i: usize = 0;
            while i < src.entries.len()
                invariant
                    0 <= i <= src.entries.len(),
                    entries@ =~= src.entries@.subrange(0, i as int),
                decreases src.entries.len() - i,
            {
                entries.push(src.entries[i]);
                proof {
                    assert(entries@ =~= src.entries@.subrange(0, i + 1));
                }
                i += 1;
            }
            proof {
                assert(entries@ =~= src.entries@);
            }
            rev.push(RevBucket { key: src.key, entries });
            j2 += 1;
        }
        let r = DynMap { fwd, rev };
        proof {
            lemma_buckets_fwd_similar(r.fwd@, self.fwd@);
            lemma_buckets_rev_similar(r.rev@, self.rev@);
        }
        r
    }
}

fn bucket_len(bs: &Vec<FwdBucket>, j: usize) -> (r: usize)
    requires
        j < bs.len(),
    ensures
        r == bs[j as int].entries@.len(),
{
    bs[j].entries.len()
}

/// A key kind with no backing store holds no association.
proof fn lemma_buckets_fwd_absent(bs: Seq<FwdBucket>, key: KeyKind)
    requires
        forall|i: int| 0 <= i < bs.len() ==> (#[trigger] bs[i].key) != key,
    ensures
        forall|ptr: AstPtr| #[trigger] buckets_fwd(bs, key, ptr) is None,
    decreases bs.len(),
{
    if bs.len() > 0 {
        assert forall|i: int|
            0 <= i < bs.drop_last().len() implies (#[trigger] bs.drop_last()[i].key) != key by {
            assert(bs.drop_last()[i] == bs[i]);
        }
        lemma_buckets_fwd_absent(bs.drop_last(), key);
        assert(bs[bs.len() - 1].key != key);
        assert forall|ptr: AstPtr| #[trigger] buckets_fwd(bs, key, ptr) is None by {
            assert(buckets_fwd(bs.drop_last(), key, ptr) is None);
        }
    }
}

proof fn lemma_buckets_rev_absent(bs: Seq<RevBucket>, key: KeyKind)
    requires
        forall|i: int| 0 <= i < bs.len() ==> (#[trigger] bs[i].key) != key,
    ensures
        forall|def: DefValue| #[trigger] buckets_rev(bs, key, def) is None,
    decreases bs.len(),
{
    if bs.len() > 0 {
        assert forall|i: int|
            0 <= i < bs.drop_last().len() implies (#[trigger] bs.drop_last()[i].key) != key by {
            assert(bs.drop_last()[i] == bs[i]);
        }
        lemma_buckets_rev_absent(bs.drop_last(), key);
        assert(bs[bs.len() - 1].key != key);
        assert forall|def: DefValue| #[trigger] buckets_rev(bs, key, def) is None by {
            assert(buckets_rev(bs.drop_last(), key, def) is None);
        }
    }
}

/// With distinct bucket keys, a lookup reads exactly the bucket that holds
/// the key.
proof fn lemma_buckets_fwd_found(bs: Seq<FwdBucket>, j: int, key: KeyKind, ptr: AstPtr)
    requires
        0 <= j < bs.len(),
        bs[j].key == key,
        forall|i: int, i2: int|
            0 <= i < i2 < bs.len() ==> (#[trigger] bs[i].key) != (#[trigger] bs[i2].key),
    ensures
        buckets_fwd(bs, key, ptr) == assoc_fwd(bs[j].entries@, ptr),
    decreases bs.len(),
{
    if j < bs.len() - 1 {
        assert(bs.last().key != key);
        lemma_buckets_fwd_found(bs.drop_last(), j, key, ptr);
    }
}

proof fn lemma_buckets_fwd_found_all(bs: Seq<FwdBucket>, j: int, key: KeyKind)
    requires
        0 <= j < bs.len(),
        bs[j].key == key,
        forall|i: int, i2: int|
            0 <= i < i2 < bs.len() ==> (#[trigger] bs[i].key) != (#[trigger] bs[i2].key),
    ensures
        forall|ptr: AstPtr| #[trigger] buckets_fwd(bs, key, ptr) == assoc_fwd(bs[j].entries@, ptr),
{
    assert forall|ptr: AstPtr| #[trigger]
        buckets_fwd(bs, key, ptr) == assoc_fwd(bs[j].entries@, ptr) by {
        lemma_buckets_fwd_found(bs, j, key, ptr);
    }
}

proof fn lemma_buckets_rev_found(bs: Seq<RevBucket>, j: int, key: KeyKind, def: DefValue)
    requires
        0 <= j < bs.len(),
        bs[j].key == key,
        forall|i: int, i2: int|
            0 <= i < i2 < bs.len() ==> (#[trigger] bs[i].key) != (#[trigger] bs[i2].key),
    ensures
        buckets_rev(bs, key, def) == assoc_rev(bs[j].entries@, def),
    decreases bs.len(),
{
    if j < bs.len() - 1 {
        assert(bs.last().key != key);
        lemma_buckets_rev_found(bs.drop_last(), j, key, def);
    }
}

/// A stored entry makes its key kind non-empty.
proof fn lemma_assoc_fwd_some(s: Seq<(AstPtr, DefValue)>, i: int)
    requires
        0 <= i < s.len(),
    ensures
        assoc_fwd(s, s[i].0) is Some,
    decreases s.len(),
{
    if i < s.len() - 1 && s.last().0 != s[i].0 {
        lemma_assoc_fwd_some(s.drop_last(), i);
    }
}

/// Updating one bucket in place updates the association pointwise.
proof fn lemma_buckets_fwd_update(
    bs: Seq<FwdBucket>,
    bs2: Seq<FwdBucket>,
    j: int,
    key: KeyKind,
    ptr: AstPtr,
    value: DefValue,
)
    requires
        0 <= j < bs.len(),
        bs2.len() == bs.len(),
        bs[j].key == key,
        bs2[j].key == key,
        bs2[j].entries@ == bs[j].entries@.push((ptr, value)),
        forall|i: int| 0 <= i < bs.len() && i != j ==> #[trigger] bs2[i] == bs[i],
        forall|i: int| 0 <= i < bs.len() && i != j ==> (#[trigger] bs[i].key) != key,
    ensures
        forall|k2: KeyKind, p2: AstPtr| #[trigger] buckets_fwd(bs2, k2, p2) == if k2 == key && p2
            == ptr {
            Some(value)
        } else {
            buckets_fwd(bs, k2, p2)
        },
    decreases bs.len(),
{
    if j == bs.len() - 1 {
        assert forall|k2: KeyKind, p2: AstPtr| #[trigger]
            buckets_fwd(bs2, k2, p2) == if k2 == key && p2 == ptr {
                Some(value)
            } else {
                buckets_fwd(bs, k2, p2)
            } by {
            assert(bs2.drop_last() =~= bs.drop_last());
            if k2 == key {
                assert(bs2.last().entries@.drop_last() =~= bs.last().entries@);
            }
        }
    } else {
        lemma_buckets_fwd_update(bs.drop_last(), bs2.drop_last(), j, key, ptr, value);
        assert forall|k2: KeyKind, p2: AstPtr| #[trigger]
            buckets_fwd(bs2, k2, p2) == if k2 == key && p2 == ptr {
                Some(value)
            } else {
                buckets_fwd(bs, k2, p2)
            } by {
            assert(bs2.last() == bs.last());
            assert(buckets_fwd(bs2.drop_last(), k2, p2) == if k2 == key && p2 == ptr {
                Some(value)
            } else {
                buckets_fwd(bs.drop_last(), k2, p2)
            });
        }
    }
}

proof fn lemma_buckets_rev_update(
    bs: Seq<RevBucket>,
    bs2: Seq<RevBucket>,
    j: int,
    key: KeyKind,
    def: DefValue,
    ptr: AstPtr,
)
    requires
        0 <= j < bs.len(),
        bs2.len() == bs.len(),
        bs[j].key == key,
        bs2[j].key == key,
        bs2[j].entries@ == bs[j].entries@.push((def, ptr)),
        forall|i: int| 0 <= i < bs.len() && i != j ==> #[trigger] bs2[i] == bs[i],
        forall|i: int| 0 <= i < bs.len() && i != j ==> (#[trigger] bs[i].key) != key,
    ensures
        forall|k2: KeyKind, d2: DefValue| #[trigger] buckets_rev(bs2, k2, d2) == if k2 == key && d2
            == def {
            Some(ptr)
        } else {
            buckets_rev(bs, k2, d2)
        },
    decreases bs.len(),
{
    if j == bs.len() - 1 {
        assert forall|k2: KeyKind, d2: DefValue| #[trigger]
            buckets_rev(bs2, k2, d2) == if k2 == key && d2 == def {
                Some(ptr)
            } else {
                buckets_rev(bs, k2, d2)
            } by {
            assert(bs2.drop_last() =~= bs.drop_last());
            if k2 == key {
                assert(bs2.last().entries@.drop_last() =~= bs.last().entries@);
            }
        }
    } else {
        lemma_buckets_rev_update(bs.drop_last(), bs2.drop_last(), j, key, def, ptr);
        assert forall|k2: KeyKind, d2: DefValue| #[trigger]
            buckets_rev(bs2, k2, d2) == if k2 == key && d2 == def {
                Some(ptr)
            } else {
                buckets_rev(bs, k2, d2)
            } by {
            assert(bs2.last() == bs.last());
            assert(buckets_rev(bs2.drop_last(), k2, d2) == if k2 == key && d2 == def {
                Some(ptr)
            } else {
                buckets_rev(bs.drop_last(), k2, d2)
            });
        }
    }
}

/// Bucket sequences with the same keys and the same stored entries hold the
/// same associations.
proof fn lemma_buckets_fwd_similar(a: Seq<FwdBucket>, b: Seq<FwdBucket>)
    requires
        a.len() == b.len(),
        forall|i: int|
            0 <= i < a.len() ==> (#[trigger] a[i].key) == b[i].key && a[i].entries@
                == b[i].entries@,
    ensures
        forall|key: KeyKind, ptr: AstPtr| #[trigger] buckets_fwd(a, key, ptr) == buckets_fwd(
            b,
            key,
            ptr,
        ),
    decreases a.len(),
{
    if a.len() > 0 {
        assert forall|i: int|
            0 <= i < a.drop_last().len() implies (#[trigger] a.drop_last()[i].key)
                == b.drop_last()[i].key && a.drop_last()[i].entries@
                == b.drop_last()[i].entries@ by {
            assert(a.drop_last()[i] == a[i]);
            assert(b.drop_last()[i] == b[i]);
        }
        lemma_buckets_fwd_similar(a.drop_last(), b.drop_last());
        assert(a[a.len() - 1].key == b[a.len() - 1].key);
        assert(a[a.len() - 1].entries@ == b[a.len() - 1].entries@);
        assert forall|key: KeyKind, ptr: AstPtr| #[trigger]
            buckets_fwd(a, key, ptr) == buckets_fwd(b, key, ptr) by {
            assert(buckets_fwd(a.drop_last(), key, ptr) == buckets_fwd(
                b.drop_last(),
                key,
                ptr,
            ));
        }
    }
}

proof fn lemma_buckets_rev_similar(a: Seq<RevBucket>, b: Seq<RevBucket>)
    requires
        a.len() == b.len(),
        forall|i: int|
            0 <= i < a.len() ==> (#[trigger] a[i].key) == b[i].key && a[i].entries@
                == b[i].entries@,
    ensures
        forall|key: KeyKind, def: DefValue| #[trigger] buckets_rev(a, key, def) == buckets_rev(
            b,
            key,
            def,
        ),
    decreases a.len(),
{
    if a.len() > 0 {
        assert forall|i: int|
            0 <= i < a.drop_last().len() implies (#[trigger] a.drop_last()[i].key)
                == b.drop_last()[i].key && a.drop_last()[i].entries@
                == b.drop_last()[i].entries@ by {
            assert(a.drop_last()[i] == a[i]);
            assert(b.drop_last()[i] == b[i]);
        }
        lemma_buckets_rev_similar(a.drop_last(), b.drop_last());
        assert(a[a.len() - 1].key == b[a.len() - 1].key);
        assert(a[a.len() - 1].entries@ == b[a.len() - 1].entries@);
        assert forall|key: KeyKind, def: DefValue| #[trigger]
            buckets_rev(a, key, def) == buckets_rev(b, key, def) by {
            assert(buckets_rev(a.drop_last(), key, def) == buckets_rev(
                b.drop_last(),
                key,
                def,
            ));
        }
    }
}

/// A stored reverse entry makes its key kind non-empty.
proof fn lemma_assoc_rev_some(s: Seq<(DefValue, AstPtr)>, i: int)
    requires
        0 <= i < s.len(),
    ensures
        assoc_rev(s, s[i].0) is Some,
    decreases s.len(),
{
    if i < s.len() - 1 && s.last().0 != s[i].0 {
        lemma_assoc_rev_some(s.drop_last(), i);
    }
}

impl DynMap {
    /// Whether any reverse association of a key kind exists; the check does
    /// not allocate the key's backing store.
    pub fn is_empty_rev(&self, key: KeyKind) -> (r: bool)
        requires
            self.wf(),
        ensures
            r <==> forall|def: DefValue| #[trigger] self.spec_rev(key, def) is None,
    {
        let mut j: usize = 0;
        loop
            invariant
                0 <= j <= self.rev.len(),
                forall|i: int| 0 <= i < j ==> (#[trigger] self.rev[i].key) != key,
                self.wf(),
            decreases self.rev.len() - j,
        {
            if j == self.rev.len() {
                proof {
                    lemma_buckets_rev_absent(self.rev@, key);
                }
                return true;
            }
            if self.rev[j].key == key {
                proof {
                    assert forall|def: DefValue| #[trigger]
                        buckets_rev(self.rev@, key, def) == assoc_rev(
                            self.rev[j as int].entries@,
                            def,
                        ) by {
                        lemma_buckets_rev_found(self.rev@, j as int, key, def);
                    }
                }
                if self.rev[j].entries.len() == 0 {
                    return true;
                } else {
                    let e = self.rev[j].entries[0];
                    proof {
                        lemma_assoc_rev_some(self.rev[j as int].entries@, 0);
                        assert(self.spec_rev(key, e.0) is Some);
                    }
                    return false;
                }
            }
            j += 1;
        }
    }
}

/// The key descriptor of one declared definition-to-pointer association: a
/// token fixing which backing store an operation touches, so that no
/// runtime type check is needed.
#[derive(Clone, Copy, PartialEq, Eq, Hash, Debug, Structural)]
pub struct DefIdPolicy {
    pub key: KeyKind,
}

impl DefIdPolicy {
    /// Record the defining pointer of a definition.
    pub fn insert(self, map: &mut DynMap, key: DefValue, value: AstPtr)
        requires
            old(map).wf(),
        ensures
            final(map).wf(),
            forall|k2: KeyKind, d2: DefValue| #[trigger] final(map).spec_rev(k2, d2) == if k2
                == self.key && d2 == key {
                Some(value)
            } else {
                old(map).spec_rev(k2, d2)
            },
            forall|k2: KeyKind, p2: AstPtr| #[trigger] final(map).spec_fwd(k2, p2) == old(
                map,
            ).spec_fwd(k2, p2),
    {
        map.insert_rev(self.key, key, value);
    }

    /// The recorded defining pointer of a definition, if any.
    pub fn get(self, map: &DynMap, key: &DefValue) -> (r: Option<AstPtr>)
        requires
            map.wf(),
        ensures
            r == map.spec_rev(self.key, *key),
    {
        map.get_rev(self.key, *key)
    }

    /// Whether any association of this declared type exists.
    pub fn is_empty(self, map: &DynMap) -> (r: bool)
        requires
            map.wf(),
        ensures
            r <==> forall|def: DefValue| #[trigger] map.spec_rev(self.key, def) is None,
    {
        map.is_empty_rev(self.key)
    }
}

} // verus!
