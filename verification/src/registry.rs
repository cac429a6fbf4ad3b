//! The registry: a process-wide accumulator of declaration records, keyed
//! by module and name, with insertion-order-preserving module buckets and
//! an idempotent merge for registrations that arrive separately.

use vstd::prelude::*;
use crate::records::ClassData;
use crate::records::ClassDataV;
use crate::records::DeclarationRecord;
use crate::records::DeclarationRecordV;
use crate::records::Entry;
use crate::records::EntryV;
use crate::records::EnumData;
use crate::records::EnumDataV;
use crate::records::EnumVariantV;
use crate::records::FieldRecordV;
use crate::records::FunctionData;
use crate::records::FunctionDataV;
use crate::records::MethodRecordV;
use crate::records::FieldRecord;
use crate::records::EnumVariant;
use crate::records::MethodRecord;
use crate::records::lemma_vviews;
use crate::records::lemma_vviews_update;
use crate::records::lemma_vviews_push;
use crate::records::vviews;

verus! {

// ---------------------------------------------------------------------
// A small kit for sequences of keyed items: find by key, insert-or-
// replace, and the facts about them that the merge proofs need.
// ---------------------------------------------------------------------

/// Index of the first item whose key is `k`, or `-1`.
pub open spec fn key_idx<T>(s: Seq<T>, f: spec_fn(T) -> Seq<char>, k: Seq<char>) -> int
    decreases s.len(),
{
    if s.len() == 0 {
        -1
    } else if f(s[0]) == k {
        0
    } else {
        let r = key_idx(s.drop_first(), f, k);
        if r < 0 {
            -1
        } else {
            r + 1
        }
    }
}

/// What `key_idx` returns: either `-1` and no item has the key, or the
/// first position holding the key.
pub proof fn lemma_key_idx_props<T>(s: Seq<T>, f: spec_fn(T) -> Seq<char>, k: Seq<char>)
    ensures
        key_idx(s, f, k) == -1 ==> forall|j: int| 0 <= j < s.len() ==> f(s[j]) != k,
        key_idx(s, f, k) != -1 ==> 0 <= key_idx(s, f, k) < s.len() && f(s[key_idx(s, f, k)]) == k
            && (forall|j: int| 0 <= j < key_idx(s, f, k) ==> f(s[j]) != k),
    decreases s.len(),
{
    if s.len() != 0 && f(s[0]) != k {
        lemma_key_idx_props(s.drop_first(), f, k);
        assert forall|j: int| 1 <= j < s.len() implies f(s[j]) == f(s.drop_first()[j - 1]) by {
            assert(s.drop_first()[j - 1] == s[j]);
        }
    }
}

/// `key_idx` finds position `i` when `i` holds the key and no earlier
/// position does.
pub proof fn lemma_key_idx_is<T>(s: Seq<T>, f: spec_fn(T) -> Seq<char>, k: Seq<char>, i: int)
    requires
        0 <= i < s.len(),
        f(s[i]) == k,
        forall|j: int| 0 <= j < i ==> f(s[j]) != k,
    ensures
        key_idx(s, f, k) == i,
    decreases i,
{
    if i > 0 {
        assert(f(s[0]) != k);
        assert(s.drop_first()[i - 1] == s[i]);
        assert forall|j: int| 0 <= j < i - 1 implies f(s.drop_first()[j]) != k by {
            assert(s.drop_first()[j] == s[j + 1]);
        }
        lemma_key_idx_is(s.drop_first(), f, k, i - 1);
    }
}

/// Two sequences with pointwise equal keys have the same `key_idx`.
pub proof fn lemma_key_idx_congruent<T>(
    s1: Seq<T>,
    s2: Seq<T>,
    f: spec_fn(T) -> Seq<char>,
    k: Seq<char>,
)
    requires
        s1.len() == s2.len(),
        forall|j: int| 0 <= j < s1.len() ==> f(s1[j]) == f(s2[j]),
    ensures
        key_idx(s1, f, k) == key_idx(s2, f, k),
{
    lemma_key_idx_props(s1, f, k);
    lemma_key_idx_props(s2, f, k);
    let i1 = key_idx(s1, f, k);
    let i2 = key_idx(s2, f, k);
    if i1 == -1 && i2 != -1 {
        assert(f(s1[i2]) == f(s2[i2]));
    } else if i1 != -1 && i2 == -1 {
        assert(f(s2[i1]) == f(s1[i1]));
    } else if i1 != -1 && i2 != -1 && i1 != i2 {
        if i1 < i2 {
            assert(f(s2[i1]) == f(s1[i1]));
        } else {
            assert(f(s1[i2]) == f(s2[i2]));
        }
    }
}

/// Inserts `x`, replacing the first item with the same key, or appends it.
pub open spec fn upsert<T>(s: Seq<T>, f: spec_fn(T) -> Seq<char>, x: T) -> Seq<T> {
    let i = key_idx(s, f, f(x));
    if i < 0 {
        s.push(x)
    } else {
        s.update(i, x)
    }
}

/// After an upsert of `x`, the first item keyed like `x` is exactly `x`.
pub open spec fn at_key<T>(s: Seq<T>, f: spec_fn(T) -> Seq<char>, x: T) -> bool {
    let i = key_idx(s, f, f(x));
    i >= 0 && s[i] == x
}

/// An upsert establishes `at_key`.
pub proof fn lemma_upsert_at_key<T>(s: Seq<T>, f: spec_fn(T) -> Seq<char>, x: T)
    ensures
        at_key(upsert(s, f, x), f, x),
{
    lemma_key_idx_props(s, f, f(x));
    let i = key_idx(s, f, f(x));
    if i < 0 {
        assert forall|j: int| 0 <= j < s.len() implies f(s.push(x)[j]) != f(x) by {
            assert(s.push(x)[j] == s[j]);
        }
        lemma_key_idx_is(s.push(x), f, f(x), s.len() as int);
    } else {
        assert forall|j: int| 0 <= j < i implies f(s.update(i, x)[j]) != f(x) by {
            assert(s.update(i, x)[j] == s[j]);
        }
        lemma_key_idx_is(s.update(i, x), f, f(x), i);
    }
}

/// Upserting an item that is already in place changes nothing.
pub proof fn lemma_upsert_noop<T>(s: Seq<T>, f: spec_fn(T) -> Seq<char>, x: T)
    requires
        at_key(s, f, x),
    ensures
        upsert(s, f, x) == s,
{
    let i = key_idx(s, f, f(x));
    lemma_key_idx_props(s, f, f(x));
    assert(upsert(s, f, x) =~= s);
}

/// An upsert under one key leaves `at_key` under a different key intact.
pub proof fn lemma_upsert_preserves_at_key<T>(s: Seq<T>, f: spec_fn(T) -> Seq<char>, x: T, y: T)
    requires
        at_key(s, f, x),
        f(y) != f(x),
    ensures
        at_key(upsert(s, f, y), f, x),
{
    let i = key_idx(s, f, f(x));
    lemma_key_idx_props(s, f, f(x));
    lemma_key_idx_props(s, f, f(y));
    let j = key_idx(s, f, f(y));
    if j < 0 {
        let u = s.push(y);
        assert forall|l: int| 0 <= l < i implies f(u[l]) != f(x) by {
            assert(u[l] == s[l]);
        }
        assert(u[i] == s[i]);
        lemma_key_idx_is(u, f, f(x), i);
    } else {
        let u = s.update(j, y);
        assert(i != j);
        assert forall|l: int| 0 <= l < u.len() implies f(u[l]) == f(s[l]) by {
            if l != j {
                assert(u[l] == s[l]);
            }
        }
        lemma_key_idx_congruent(s, u, f, f(x));
        assert(u[i] == s[i]);
    }
}

/// Inserts each of `xs` in turn, each replacing an item with its key.
pub open spec fn upsert_all<T>(s: Seq<T>, f: spec_fn(T) -> Seq<char>, xs: Seq<T>) -> Seq<T>
    decreases xs.len(),
{
    if xs.len() == 0 {
        s
    } else {
        upsert_all(upsert(s, f, xs[0]), f, xs.drop_first())
    }
}

/// No two of `xs` share a key.
pub open spec fn unique_keys<T>(s: Seq<T>, f: spec_fn(T) -> Seq<char>) -> bool {
    forall|i: int, j: int| 0 <= i < j < s.len() ==> f(s[i]) != f(s[j])
}

/// A fold of upserts whose keys all differ from `x`'s preserves `at_key`.
pub proof fn lemma_upsert_all_preserves_at_key<T>(
    s: Seq<T>,
    f: spec_fn(T) -> Seq<char>,
    x: T,
    xs: Seq<T>,
)
    requires
        at_key(s, f, x),
        forall|j: int| 0 <= j < xs.len() ==> f(xs[j]) != f(x),
    ensures
        at_key(upsert_all(s, f, xs), f, x),
    decreases xs.len(),
{
    if xs.len() != 0 {
        lemma_upsert_preserves_at_key(s, f, x, xs[0]);
        assert forall|j: int| 0 <= j < xs.drop_first().len() implies f(xs.drop_first()[j]) != f(
            x,
        ) by {
            assert(xs.drop_first()[j] == xs[j + 1]);
        }
        lemma_upsert_all_preserves_at_key(upsert(s, f, xs[0]), f, x, xs.drop_first());
    }
}

/// A fold of upserts of items already in place changes nothing.
pub proof fn lemma_upsert_all_noop<T>(s: Seq<T>, f: spec_fn(T) -> Seq<char>, xs: Seq<T>)
    requires
        forall|j: int| 0 <= j < xs.len() ==> at_key(s, f, #[trigger] xs[j]),
    ensures
        upsert_all(s, f, xs) == s,
    decreases xs.len(),
{
    if xs.len() != 0 {
        lemma_upsert_noop(s, f, xs[0]);
        assert forall|j: int| 0 <= j < xs.drop_first().len() implies at_key(
            s,
            f,
            #[trigger] xs.drop_first()[j],
        ) by {
            assert(xs.drop_first()[j] == xs[j + 1]);
        }
        lemma_upsert_all_noop(s, f, xs.drop_first());
    }
}

/// Folding the same uniquely-keyed items in a second time changes
/// nothing.
pub proof fn lemma_upsert_all_idem<T>(s: Seq<T>, f: spec_fn(T) -> Seq<char>, xs: Seq<T>)
    requires
        unique_keys(xs, f),
    ensures
        upsert_all(upsert_all(s, f, xs), f, xs) == upsert_all(s, f, xs),
    decreases xs.len(),
{
    if xs.len() != 0 {
        let x0 = xs[0];
        let rest = xs.drop_first();
        let s1 = upsert(s, f, x0);
        let u = upsert_all(s1, f, rest);
        lemma_upsert_at_key(s, f, x0);
        assert forall|j: int| 0 <= j < rest.len() implies f(rest[j]) != f(x0) by {
            assert(rest[j] == xs[j + 1]);
        }
        lemma_upsert_all_preserves_at_key(s1, f, x0, rest);
        lemma_upsert_noop(u, f, x0);
        assert forall|i: int, j: int| 0 <= i < j < rest.len() implies f(rest[i]) != f(
            rest[j],
        ) by {
            assert(rest[i] == xs[i + 1]);
            assert(rest[j] == xs[j + 1]);
        }
        lemma_upsert_all_idem(s1, f, rest);
        assert(upsert_all(u, f, xs) == upsert_all(upsert(u, f, x0), f, rest));
        assert(upsert(u, f, x0) == u);
    }
}

/// Items already in place satisfy `at_key` when their keys are unique.
pub proof fn lemma_self_at_key<T>(s: Seq<T>, f: spec_fn(T) -> Seq<char>)
    requires
        unique_keys(s, f),
    ensures
        forall|j: int| 0 <= j < s.len() ==> at_key(s, f, #[trigger] s[j]),
{
    assert forall|j: int| 0 <= j < s.len() implies at_key(s, f, #[trigger] s[j]) by {
        assert forall|l: int| 0 <= l < j implies f(s[l]) != f(s[j]) by {}
        lemma_key_idx_is(s, f, f(s[j]), j);
    }
}

// ---------------------------------------------------------------------
// Keys, merge and registration at the model level.
// ---------------------------------------------------------------------

/// The key of a method or property record: its name.
pub open spec fn method_key(m: MethodRecordV) -> Seq<char> {
    m.name
}

/// The key of a field record: its name.
pub open spec fn field_key(fd: FieldRecordV) -> Seq<char> {
    fd.name
}

/// The key of an enum variant: its native identifier.
pub open spec fn variant_key(v: EnumVariantV) -> Seq<char> {
    v.native
}

/// The key of a capability tag: the tag itself.
pub open spec fn tag_key(t: Seq<char>) -> Seq<char> {
    t
}


/// The tag key function, shared by specs and proofs.
pub open spec fn tag_keyf() -> spec_fn(Seq<char>) -> Seq<char> {
    |t: Seq<char>| tag_key(t)
}

/// The field key function, shared by specs and proofs.
pub open spec fn field_keyf() -> spec_fn(FieldRecordV) -> Seq<char> {
    |fd: FieldRecordV| field_key(fd)
}

/// The variant key function, shared by specs and proofs.
pub open spec fn variant_keyf() -> spec_fn(EnumVariantV) -> Seq<char> {
    |v: EnumVariantV| variant_key(v)
}

/// The method key function, shared by specs and proofs.
pub open spec fn method_keyf() -> spec_fn(MethodRecordV) -> Seq<char> {
    |m: MethodRecordV| method_key(m)
}

/// The entry key function, shared by specs and proofs.
pub open spec fn entry_keyf() -> spec_fn(EntryV) -> Seq<char> {
    |e: EntryV| entry_key(e)
}

/// The bucket key function, shared by specs and proofs.
pub open spec fn bucket_keyf() -> spec_fn(ModuleBucketV) -> Seq<char> {
    |b: ModuleBucketV| bucket_key(b)
}

/// The key of a top-level entry: the native identifier for classes and
/// enums, the exposed name for functions.
pub open spec fn entry_key(e: EntryV) -> Seq<char> {
    match e {
        EntryV::Class(c) => c.native,
        EntryV::Enum(d) => d.native,
        EntryV::Function(f) => f.name,
    }
}

/// The key a registration targets inside its module bucket.
pub open spec fn rec_key(r: DeclarationRecordV) -> Seq<char> {
    match r {
        DeclarationRecordV::Class { native, .. } => native,
        DeclarationRecordV::Enum { native, .. } => native,
        DeclarationRecordV::Method { class_native, .. } => class_native,
        DeclarationRecordV::Function { name, .. } => name,
    }
}

/// The module a registration targets.
pub open spec fn rec_module(r: DeclarationRecordV) -> Seq<char> {
    match r {
        DeclarationRecordV::Class { module, .. } => module,
        DeclarationRecordV::Enum { module, .. } => module,
        DeclarationRecordV::Method { module, .. } => module,
        DeclarationRecordV::Function { module, .. } => module,
    }
}

/// Validity of one registration: its member lists carry no duplicate
/// keys.
pub open spec fn rec_wf(r: DeclarationRecordV) -> bool {
    match r {
        DeclarationRecordV::Class { tags, fields, .. } => unique_keys(tags, tag_keyf())
            && unique_keys(fields, field_keyf()),
        DeclarationRecordV::Enum { variants, .. } => unique_keys(
            variants,
            variant_keyf(),
        ),
        DeclarationRecordV::Method { .. } => true,
        DeclarationRecordV::Function { .. } => true,
    }
}

/// The fresh entry a registration creates when its key is new: a method
/// whose class was never registered synthesizes a flagged placeholder
/// class.
pub open spec fn new_entry(r: DeclarationRecordV) -> EntryV {
    match r {
        DeclarationRecordV::Class { native, name, tags, fields, .. } => EntryV::Class(
            ClassDataV {
                native,
                name,
                tags,
                fields,
                methods: Seq::empty(),
                synthesized: false,
            },
        ),
        DeclarationRecordV::Enum { native, name, variants, .. } => EntryV::Enum(
            EnumDataV { native, name, variants },
        ),
        DeclarationRecordV::Method { class_native, method, .. } => EntryV::Class(
            ClassDataV {
                native: class_native,
                name: class_native,
                tags: Seq::empty(),
                fields: Seq::empty(),
                methods: seq![method],
                synthesized: true,
            },
        ),
        DeclarationRecordV::Function { name, params, ret, .. } => EntryV::Function(
            FunctionDataV { name, params, ret },
        ),
    }
}

/// Whether a registration can merge into an existing entry of this shape.
pub open spec fn kinds_match(e: EntryV, r: DeclarationRecordV) -> bool {
    match (e, r) {
        (EntryV::Class(_), DeclarationRecordV::Class { .. }) => true,
        (EntryV::Class(_), DeclarationRecordV::Method { .. }) => true,
        (EntryV::Enum(_), DeclarationRecordV::Enum { .. }) => true,
        (EntryV::Function(_), DeclarationRecordV::Function { .. }) => true,
        _ => false,
    }
}

/// Merges a registration into an entry of matching shape: member lists
/// merge key by key, scalar attributes take the later registration.
pub open spec fn merge_same(e: EntryV, r: DeclarationRecordV) -> EntryV {
    match (e, r) {
        (EntryV::Class(c), DeclarationRecordV::Class { name, tags, fields, .. }) => EntryV::Class(
            ClassDataV {
                native: c.native,
                name,
                tags: upsert_all(c.tags, tag_keyf(), tags),
                fields: upsert_all(c.fields, field_keyf(), fields),
                methods: c.methods,
                synthesized: false,
            },
        ),
        (EntryV::Class(c), DeclarationRecordV::Method { method, .. }) => EntryV::Class(
            ClassDataV {
                native: c.native,
                name: c.name,
                tags: c.tags,
                fields: c.fields,
                methods: upsert(c.methods, method_keyf(), method),
                synthesized: c.synthesized,
            },
        ),
        (EntryV::Enum(d), DeclarationRecordV::Enum { name, variants, .. }) => EntryV::Enum(
            EnumDataV {
                native: d.native,
                name,
                variants: upsert_all(d.variants, variant_keyf(), variants),
            },
        ),
        (EntryV::Function(_), DeclarationRecordV::Function { name, params, ret, .. }) => (
        EntryV::Function(FunctionDataV { name, params, ret })),
        (other, _) => other,
    }
}

/// Merges a registration into an existing entry under the same key; an
/// entry of a different shape is replaced outright, the later
/// registration winning.
pub open spec fn merge_entry(e: EntryV, r: DeclarationRecordV) -> EntryV {
    if kinds_match(e, r) {
        merge_same(e, r)
    } else {
        new_entry(r)
    }
}

/// Registers a record among the entries of its module bucket.
pub open spec fn reg_entries(es: Seq<EntryV>, r: DeclarationRecordV) -> Seq<EntryV> {
    let j = key_idx(es, entry_keyf(), rec_key(r));
    if j < 0 {
        es.push(new_entry(r))
    } else {
        es.update(j, merge_entry(es[j], r))
    }
}

/// One module's bucket: its path and its entries in registration order.
pub struct ModuleBucket {
    pub path: String,
    pub entries: Vec<Entry>,
}

/// Model of a [`ModuleBucket`].
#[verifier::ext_equal]
pub struct ModuleBucketV {
    pub path: Seq<char>,
    pub entries: Seq<EntryV>,
}

impl View for ModuleBucket {
    type V = ModuleBucketV;

    open spec fn view(&self) -> ModuleBucketV {
        ModuleBucketV { path: self.path@, entries: vviews(self.entries@) }
    }
}

/// The key of a bucket: its module path.
pub open spec fn bucket_key(b: ModuleBucketV) -> Seq<char> {
    b.path
}

/// Model of a [`Registry`].
#[verifier::ext_equal]
pub struct RegistryV {
    pub default_module: Seq<char>,
    pub modules: Seq<ModuleBucketV>,
}

/// Registers one record: the record lands in its module's bucket, which
/// is appended in first-seen order if new.
pub open spec fn spec_register(reg: RegistryV, r: DeclarationRecordV) -> RegistryV {
    let m = rec_module(r);
    let i = key_idx(reg.modules, bucket_keyf(), m);
    if i < 0 {
        RegistryV {
            default_module: reg.default_module,
            modules: reg.modules.push(
                ModuleBucketV { path: m, entries: reg_entries(Seq::empty(), r) },
            ),
        }
    } else {
        RegistryV {
            default_module: reg.default_module,
            modules: reg.modules.update(
                i,
                ModuleBucketV { path: m, entries: reg_entries(reg.modules[i].entries, r) },
            ),
        }
    }
}

// ---------------------------------------------------------------------
// Idempotence of registration.
// ---------------------------------------------------------------------

/// A merged entry sits under the registration's key.
pub proof fn lemma_merge_key(e: EntryV, r: DeclarationRecordV)
    requires
        entry_key(e) == rec_key(r),
    ensures
        entry_key(merge_entry(e, r)) == rec_key(r),
{
}

/// Merging a registration into the entry it has just created changes
/// nothing.
pub proof fn lemma_merge_new(r: DeclarationRecordV)
    requires
        rec_wf(r),
    ensures
        merge_entry(new_entry(r), r) == new_entry(r),
{
    match r {
        DeclarationRecordV::Class { tags, fields, .. } => {
            lemma_self_at_key(tags, tag_keyf());
            lemma_upsert_all_noop(tags, tag_keyf(), tags);
            lemma_self_at_key(fields, field_keyf());
            lemma_upsert_all_noop(fields, field_keyf(), fields);
        },
        DeclarationRecordV::Enum { variants, .. } => {
            lemma_self_at_key(variants, variant_keyf());
            lemma_upsert_all_noop(variants, variant_keyf(), variants);
        },
        DeclarationRecordV::Method { method, .. } => {
            lemma_key_idx_is(seq![method], method_keyf(), method.name, 0);
            lemma_upsert_noop(seq![method], method_keyf(), method);
        },
        DeclarationRecordV::Function { .. } => {},
    }
}

/// Merging the same registration twice equals merging it once.
pub proof fn lemma_merge_idem(e: EntryV, r: DeclarationRecordV)
    requires
        rec_wf(r),
    ensures
        merge_entry(merge_entry(e, r), r) == merge_entry(e, r),
{
    if !kinds_match(e, r) {
        lemma_merge_new(r);
    } else {
        match (e, r) {
            (EntryV::Class(c), DeclarationRecordV::Class { tags, fields, .. }) => {
                lemma_upsert_all_idem(c.tags, tag_keyf(), tags);
                lemma_upsert_all_idem(c.fields, field_keyf(), fields);
            },
            (EntryV::Class(c), DeclarationRecordV::Method { method, .. }) => {
                lemma_upsert_at_key(c.methods, method_keyf(), method);
                lemma_upsert_noop(
                    upsert(c.methods, method_keyf(), method),
                    method_keyf(),
                    method,
                );
            },
            (EntryV::Enum(d), DeclarationRecordV::Enum { variants, .. }) => {
                lemma_upsert_all_idem(d.variants, variant_keyf(), variants);
            },
            _ => {},
        }
    }
}

/// Registering the same valid record twice leaves the registry — and so
/// everything rendered from it — exactly as registering it once does.
pub proof fn lemma_register_idempotent(reg: RegistryV, r: DeclarationRecordV)
    requires
        rec_wf(r),
    ensures
        spec_register(spec_register(reg, r), r) == spec_register(reg, r),
{
    let bf = bucket_keyf();
    let ef = entry_keyf();
    let m = rec_module(r);
    let k = rec_key(r);
    let i = key_idx(reg.modules, bf, m);
    lemma_key_idx_props(reg.modules, bf, m);
    let reg1 = spec_register(reg, r);
    if i < 0 {
        let b = ModuleBucketV { path: m, entries: reg_entries(Seq::empty(), r) };
        assert(reg1.modules == reg.modules.push(b));
        assert forall|j: int| 0 <= j < reg.modules.len() implies bf(reg.modules.push(b)[j]) != m by {
            assert(reg.modules.push(b)[j] == reg.modules[j]);
        }
        lemma_key_idx_is(reg1.modules, bf, m, reg.modules.len() as int);
        // entries of the fresh bucket: one entry, keyed by the record.
        let es = reg_entries(Seq::<EntryV>::empty(), r);
        assert(key_idx(Seq::<EntryV>::empty(), ef, k) == -1);
        assert(es == Seq::<EntryV>::empty().push(new_entry(r)));
        assert(es[0] == new_entry(r));
        lemma_key_idx_is(es, ef, k, 0);
        lemma_merge_new(r);
        assert(reg_entries(es, r) =~= es.update(0, merge_entry(es[0], r)));
        assert(reg_entries(es, r) =~= es);
        let b2 = ModuleBucketV { path: m, entries: reg_entries(es, r) };
        assert(b2 == b);
        assert(spec_register(reg1, r).modules =~= reg1.modules.update(
            reg.modules.len() as int,
            b2,
        ));
        assert(spec_register(reg1, r).modules =~= reg1.modules);
    } else {
        let e0 = reg.modules[i].entries;
        let es1 = reg_entries(e0, r);
        let b1 = ModuleBucketV { path: m, entries: es1 };
        assert(reg1.modules == reg.modules.update(i, b1));
        assert forall|j: int|
            0 <= j < reg.modules.len() implies bf(reg1.modules[j]) == bf(reg.modules[j]) by {
            if j != i {
                assert(reg1.modules[j] == reg.modules[j]);
            }
        }
        lemma_key_idx_congruent(reg.modules, reg1.modules, bf, m);
        assert(key_idx(reg1.modules, bf, m) == i);
        // second registration into the same bucket
        let j = key_idx(e0, ef, k);
        lemma_key_idx_props(e0, ef, k);
        if j < 0 {
            let ne = new_entry(r);
            assert(es1 == e0.push(ne));
            assert forall|l: int| 0 <= l < e0.len() implies ef(es1[l]) != k by {
                assert(es1[l] == e0[l]);
            }
            lemma_key_idx_is(es1, ef, k, e0.len() as int);
            lemma_merge_new(r);
            assert(reg_entries(es1, r) =~= es1.update(e0.len() as int, merge_entry(ne, r)));
            assert(reg_entries(es1, r) =~= es1);
        } else {
            let me = merge_entry(e0[j], r);
            assert(es1 == e0.update(j, me));
            lemma_merge_key(e0[j], r);
            assert forall|l: int| 0 <= l < e0.len() implies ef(es1[l]) == ef(e0[l]) by {
                if l != j {
                    assert(es1[l] == e0[l]);
                }
            }
            lemma_key_idx_congruent(e0, es1, ef, k);
            assert(key_idx(es1, ef, k) == j);
            lemma_merge_idem(e0[j], r);
            assert(reg_entries(es1, r) =~= es1.update(j, merge_entry(es1[j], r)));
            assert(reg_entries(es1, r) =~= es1);
        }
        let b2 = ModuleBucketV { path: m, entries: reg_entries(es1, r) };
        assert(b2 == b1);
        assert(spec_register(reg1, r).modules =~= reg1.modules.update(i, b2));
        assert(spec_register(reg1, r).modules =~= reg1.modules);
    }
    assert(spec_register(reg1, r) =~= reg1);
}


// ---------------------------------------------------------------------
// The executable registry.
// ---------------------------------------------------------------------

/// The accumulator itself: the default module for free functions, and the
/// module buckets in first-seen order.
pub struct Registry {
    pub default_module: String,
    pub modules: Vec<ModuleBucket>,
}

impl View for Registry {
    type V = RegistryV;

    open spec fn view(&self) -> RegistryV {
        RegistryV { default_module: self.default_module@, modules: vviews(self.modules@) }
    }
}

impl Registry {
    /// A fresh registry whose free functions land in `default_module`
    /// unless a registration overrides the target.
    pub fn new(default_module: String) -> (r: Registry)
        ensures
            r@ == (RegistryV { default_module: default_module@, modules: Seq::empty() }),
    {
        Registry { default_module, modules: Vec::new() }
    }

    /// Where the bucket for `module` sits, if it exists yet.
    pub(crate) fn bucket_index(&self, module: &String) -> (r: Option<usize>)
        ensures
            match r {
                Some(i) => i < self.modules@.len() && key_idx(
                    self@.modules,
                    bucket_keyf(),
                    module@,
                ) == i as int,
                None => key_idx(self@.modules, bucket_keyf(), module@) == -1,
            },
    {
        let ghost bf = bucket_keyf();
        proof {
            lemma_vviews(self.modules@);
        }
        let mut i: usize = 0;
        while i < self.modules.len()
            invariant
                bf == bucket_keyf(),
                i <= self.modules@.len(),
                self@.modules.len() == self.modules@.len(),
                forall|j: int|
                    0 <= j < self.modules@.len() ==> #[trigger] self@.modules[j]
                        == self.modules@[j]@,
                forall|j: int| 0 <= j < i ==> bf(self@.modules[j]) != module@,
            decreases self.modules@.len() - i,
        {
            if self.modules[i].path == *module {
                proof {
                    lemma_key_idx_is(self@.modules, bf, module@, i as int);
                }
                return Some(i);
            }
            i += 1;
        }
        proof {
            lemma_key_idx_props(self@.modules, bf, module@);
            if key_idx(self@.modules, bf, module@) != -1 {
                assert(bf(self@.modules[key_idx(self@.modules, bf, module@)]) == module@);
            }
        }
        None
    }

    /// Inserts or merges one declaration record into its module bucket,
    /// appending a new bucket in first-seen order when the module is new.
    pub fn register(&mut self, rec: DeclarationRecord)
        requires
            rec_wf(rec@),
        ensures
            final(self)@ == spec_register(old(self)@, rec@),
    {
        let ghost reg0 = self@;
        let module = record_module(&rec).clone();
        let ghost m = module@;
        let ghost i0 = key_idx(reg0.modules, bucket_keyf(), m);
        let idx: usize;
        match self.bucket_index(&module) {
            Some(i) => {
                idx = i;
            },
            None => {
                let ghost pre = self.modules@;
                self.modules.push(ModuleBucket { path: module.clone(), entries: Vec::new() });
                proof {
                    lemma_vviews_push(pre, self.modules@[self.modules@.len() - 1]);
                    lemma_vviews(pre);
                }
                idx = self.modules.len() - 1;
            },
        }
        let ghost mods1 = self@.modules;
        let ghost i = idx as int;
        let ghost pre_remove = self.modules@;
        proof {
            lemma_vviews(pre_remove);
        }
        let mut b = self.modules.remove(idx);
        let ghost b0 = b@;
        merge_into_bucket(&mut b, rec);
        let ghost b1 = b@;
        self.modules.insert(idx, b);
        proof {
            assert(self.modules@ =~= pre_remove.update(i, self.modules@[i]));
            lemma_vviews_update(pre_remove, i, self.modules@[i]);
            assert(self.modules@[i]@ == b1);
            assert(vviews(self.modules@) =~= vviews(pre_remove).update(i, b1));
            assert(vviews(pre_remove) == mods1);
            assert(b0 == mods1[i]);
            lemma_key_idx_props(reg0.modules, bucket_keyf(), m);
            if i0 < 0 {
                assert(mods1 =~= reg0.modules.push(b0));
                assert(b0.entries =~= Seq::<EntryV>::empty());
                assert(b0 =~= (ModuleBucketV { path: m, entries: Seq::<EntryV>::empty() }));
                assert(b1 =~= (ModuleBucketV {
                    path: m,
                    entries: reg_entries(Seq::empty(), rec@),
                }));
                assert(mods1.update(i, b1) =~= reg0.modules.push(b1));
                assert(spec_register(reg0, rec@).modules == reg0.modules.push(
                    ModuleBucketV { path: m, entries: reg_entries(Seq::empty(), rec@) },
                ));
            } else {
                assert(mods1 == reg0.modules);
                assert(i == i0);
                assert(b0.path == m);
                assert(b1 =~= (ModuleBucketV {
                    path: m,
                    entries: reg_entries(b0.entries, rec@),
                }));
                assert(spec_register(reg0, rec@).modules == reg0.modules.update(
                    i0,
                    ModuleBucketV { path: m, entries: reg_entries(reg0.modules[i0].entries, rec@) },
                ));
            }
            assert(self@ =~= spec_register(reg0, rec@));
        }
    }
}

/// Merges one record into the bucket that owns its key.
fn merge_into_bucket(b: &mut ModuleBucket, rec: DeclarationRecord)
    requires
        rec_wf(rec@),
    ensures
        final(b)@.path == old(b)@.path,
        final(b)@.entries == reg_entries(old(b)@.entries, rec@),
{
    let ghost ef = entry_keyf();
    proof {
        lemma_vviews(b.entries@);
    }
    let key = record_key(&rec);
    let mut j: usize = 0;
    let n = b.entries.len();
    let mut found: Option<usize> = None;
    while j < n
        invariant
            ef == entry_keyf(),
            j <= n,
            n == b.entries@.len(),
            b@.entries.len() == b.entries@.len(),
            forall|l: int|
                0 <= l < b.entries@.len() ==> #[trigger] b@.entries[l] == b.entries@[l]@,
            key@ == rec_key(rec@),
            match found {
                Some(fj) => fj < j && ef(b@.entries[fj as int]) == key@ && (forall|l: int|
                    0 <= l < fj ==> ef(b@.entries[l]) != key@),
                None => forall|l: int| 0 <= l < j ==> ef(b@.entries[l]) != key@,
            },
        decreases n - j,
    {
        if found.is_none() && entry_has_key(&b.entries[j], &key) {
            found = Some(j);
        }
        j += 1;
    }
    match found {
        Some(fj) => {
            proof {
                lemma_key_idx_is(b@.entries, ef, key@, fj as int);
            }
            let ghost pre = b.entries@;
            let e = b.entries.remove(fj);
            let merged = merge_entry_exec(e, rec);
            b.entries.insert(fj, merged);
            proof {
                assert(b.entries@ =~= pre.update(fj as int, b.entries@[fj as int]));
                lemma_vviews_update(pre, fj as int, b.entries@[fj as int]);
            }
        },
        None => {
            proof {
                lemma_key_idx_props(b@.entries, ef, key@);
                if key_idx(b@.entries, ef, key@) != -1 {
                    assert(ef(b@.entries[key_idx(b@.entries, ef, key@)]) == key@);
                }
            }
            let ghost pre = b.entries@;
            let e = new_entry_exec(rec);
            b.entries.push(e);
            proof {
                lemma_vviews_push(pre, b.entries@[b.entries@.len() - 1]);
            }
        },
    }
}

/// The module a record targets.
fn record_module(rec: &DeclarationRecord) -> (r: &String)
    ensures
        r@ == rec_module(rec@),
{
    match rec {
        DeclarationRecord::Class { module, .. } => module,
        DeclarationRecord::Enum { module, .. } => module,
        DeclarationRecord::Method { module, .. } => module,
        DeclarationRecord::Function { module, .. } => module,
    }
}

/// The in-bucket key a record targets.
fn record_key(rec: &DeclarationRecord) -> (r: String)
    ensures
        r@ == rec_key(rec@),
{
    match rec {
        DeclarationRecord::Class { native, .. } => native.clone(),
        DeclarationRecord::Enum { native, .. } => native.clone(),
        DeclarationRecord::Method { class_native, .. } => class_native.clone(),
        DeclarationRecord::Function { name, .. } => name.clone(),
    }
}

/// Whether this entry sits under the given key.
fn entry_has_key(e: &Entry, key: &String) -> (r: bool)
    ensures
        r == (entry_key(e@) == key@),
{
    match e {
        Entry::Class(c) => c.native == *key,
        Entry::Enum(d) => d.native == *key,
        Entry::Function(f) => f.name == *key,
    }
}

/// Builds the fresh entry a record creates under a new key.
fn new_entry_exec(rec: DeclarationRecord) -> (r: Entry)
    ensures
        r@ == new_entry(rec@),
{
    match rec {
        DeclarationRecord::Class { native, name, tags, fields, .. } => Entry::Class(
            ClassData { native, name, tags, fields, methods: Vec::new(), synthesized: false },
        ),
        DeclarationRecord::Enum { native, name, variants, .. } => Entry::Enum(
            EnumData { native, name, variants },
        ),
        DeclarationRecord::Method { class_native, method, .. } => {
            let name = class_native.clone();
            let mut methods: Vec<MethodRecord> = Vec::new();
            methods.push(method);
            proof {
                lemma_vviews_push(Seq::<MethodRecord>::empty(), methods@[0]);
            }
            Entry::Class(
                ClassData {
                    native: class_native,
                    name,
                    tags: Vec::new(),
                    fields: Vec::new(),
                    methods,
                    synthesized: true,
                },
            )
        },
        DeclarationRecord::Function { name, params, ret, .. } => Entry::Function(
            FunctionData { name, params, ret },
        ),
    }
}

/// Merges a record into the existing entry under its key.
fn merge_entry_exec(e: Entry, rec: DeclarationRecord) -> (r: Entry)
    ensures
        r@ == merge_entry(e@, rec@),
{
    match (e, rec) {
        (Entry::Class(mut c), DeclarationRecord::Class { name, tags, fields, .. }) => {
            c.name = name;
            c.synthesized = false;
            upsert_tags(&mut c.tags, tags);
            upsert_fields(&mut c.fields, fields);
            Entry::Class(c)
        },
        (Entry::Class(mut c), DeclarationRecord::Method { method, .. }) => {
            upsert_method(&mut c.methods, method);
            Entry::Class(c)
        },
        (Entry::Enum(mut d), DeclarationRecord::Enum { name, variants, .. }) => {
            d.name = name;
            upsert_variants(&mut d.variants, variants);
            Entry::Enum(d)
        },
        (Entry::Function(_), DeclarationRecord::Function { name, params, ret, .. }) => (
        Entry::Function(FunctionData { name, params, ret })),
        (_, other) => new_entry_exec(other),
    }
}

/// Inserts or replaces one method by name.
fn upsert_method(v: &mut Vec<MethodRecord>, m: MethodRecord)
    ensures
        vviews(final(v)@) == upsert(vviews(old(v)@), method_keyf(), m@),
{
    let ghost f = method_keyf();
    proof {
        lemma_vviews(v@);
    }
    let n = v.len();
    let mut j: usize = 0;
    let mut found: Option<usize> = None;
    while j < n
        invariant
            f == method_keyf(),
            j <= n,
            n == v@.len(),
            vviews(v@).len() == v@.len(),
            forall|l: int| 0 <= l < v@.len() ==> #[trigger] vviews(v@)[l] == v@[l]@,
            match found {
                Some(fj) => fj < j && f(vviews(v@)[fj as int]) == m@.name && (forall|l: int|
                    0 <= l < fj ==> f(vviews(v@)[l]) != m@.name),
                None => forall|l: int| 0 <= l < j ==> f(vviews(v@)[l]) != m@.name,
            },
        decreases n - j,
    {
        if found.is_none() && v[j].name == m.name {
            found = Some(j);
        }
        j += 1;
    }
    match found {
        Some(fj) => {
            proof {
                lemma_key_idx_is(vviews(v@), f, m@.name, fj as int);
            }
            let ghost pre = v@;
            v.remove(fj);
            v.insert(fj, m);
            proof {
                assert(v@ =~= pre.update(fj as int, v@[fj as int]));
                lemma_vviews_update(pre, fj as int, v@[fj as int]);
            }
        },
        None => {
            proof {
                lemma_key_idx_props(vviews(v@), f, m@.name);
                if key_idx(vviews(v@), f, m@.name) != -1 {
                    assert(f(vviews(v@)[key_idx(vviews(v@), f, m@.name)]) == m@.name);
                }
            }
            let ghost pre = v@;
            v.push(m);
            proof {
                lemma_vviews_push(pre, v@[v@.len() - 1]);
            }
        },
    }
}

/// Inserts or replaces one field by name.
fn upsert_field(v: &mut Vec<FieldRecord>, x: FieldRecord)
    ensures
        vviews(final(v)@) == upsert(vviews(old(v)@), field_keyf(), x@),
{
    let ghost f = field_keyf();
    proof {
        lemma_vviews(v@);
    }
    let n = v.len();
    let mut j: usize = 0;
    let mut found: Option<usize> = None;
    while j < n
        invariant
            f == field_keyf(),
            j <= n,
            n == v@.len(),
            vviews(v@).len() == v@.len(),
            forall|l: int| 0 <= l < v@.len() ==> #[trigger] vviews(v@)[l] == v@[l]@,
            match found {
                Some(fj) => fj < j && f(vviews(v@)[fj as int]) == x@.name && (forall|l: int|
                    0 <= l < fj ==> f(vviews(v@)[l]) != x@.name),
                None => forall|l: int| 0 <= l < j ==> f(vviews(v@)[l]) != x@.name,
            },
        decreases n - j,
    {
        if found.is_none() && v[j].name == x.name {
            found = Some(j);
        }
        j += 1;
    }
    match found {
        Some(fj) => {
            proof {
                lemma_key_idx_is(vviews(v@), f, x@.name, fj as int);
            }
            let ghost pre = v@;
            v.remove(fj);
            v.insert(fj, x);
            proof {
                assert(v@ =~= pre.update(fj as int, v@[fj as int]));
                lemma_vviews_update(pre, fj as int, v@[fj as int]);
            }
        },
        None => {
            proof {
                lemma_key_idx_props(vviews(v@), f, x@.name);
                if key_idx(vviews(v@), f, x@.name) != -1 {
                    assert(f(vviews(v@)[key_idx(vviews(v@), f, x@.name)]) == x@.name);
                }
            }
            let ghost pre = v@;
            v.push(x);
            proof {
                lemma_vviews_push(pre, v@[v@.len() - 1]);
            }
        },
    }
}

/// Inserts or replaces one enum variant by native identifier.
fn upsert_variant(v: &mut Vec<EnumVariant>, x: EnumVariant)
    ensures
        vviews(final(v)@) == upsert(vviews(old(v)@), variant_keyf(), x@),
{
    let ghost f = variant_keyf();
    proof {
        lemma_vviews(v@);
    }
    let n = v.len();
    let mut j: usize = 0;
    let mut found: Option<usize> = None;
    while j < n
        invariant
            f == variant_keyf(),
            j <= n,
            n == v@.len(),
            vviews(v@).len() == v@.len(),
            forall|l: int| 0 <= l < v@.len() ==> #[trigger] vviews(v@)[l] == v@[l]@,
            match found {
                Some(fj) => fj < j && f(vviews(v@)[fj as int]) == x@.native && (forall|l: int|
                    0 <= l < fj ==> f(vviews(v@)[l]) != x@.native),
                None => forall|l: int| 0 <= l < j ==> f(vviews(v@)[l]) != x@.native,
            },
        decreases n - j,
    {
        if found.is_none() && v[j].native == x.native {
            found = Some(j);
        }
        j += 1;
    }
    match found {
        Some(fj) => {
            proof {
                lemma_key_idx_is(vviews(v@), f, x@.native, fj as int);
            }
            let ghost pre = v@;
            v.remove(fj);
            v.insert(fj, x);
            proof {
                assert(v@ =~= pre.update(fj as int, v@[fj as int]));
                lemma_vviews_update(pre, fj as int, v@[fj as int]);
            }
        },
        None => {
            proof {
                lemma_key_idx_props(vviews(v@), f, x@.native);
                if key_idx(vviews(v@), f, x@.native) != -1 {
                    assert(f(vviews(v@)[key_idx(vviews(v@), f, x@.native)]) == x@.native);
                }
            }
            let ghost pre = v@;
            v.push(x);
            proof {
                lemma_vviews_push(pre, v@[v@.len() - 1]);
            }
        },
    }
}

/// Inserts or replaces one capability tag.
fn upsert_tag(v: &mut Vec<String>, x: String)
    ensures
        vviews(final(v)@) == upsert(vviews(old(v)@), tag_keyf(), x@),
{
    let ghost f = tag_keyf();
    proof {
        lemma_vviews(v@);
    }
    let n = v.len();
    let mut j: usize = 0;
    let mut found: Option<usize> = None;
    while j < n
        invariant
            f == tag_keyf(),
            j <= n,
            n == v@.len(),
            vviews(v@).len() == v@.len(),
            forall|l: int| 0 <= l < v@.len() ==> #[trigger] vviews(v@)[l] == v@[l]@,
            match found {
                Some(fj) => fj < j && f(vviews(v@)[fj as int]) == x@ && (forall|l: int|
                    0 <= l < fj ==> f(vviews(v@)[l]) != x@),
                None => forall|l: int| 0 <= l < j ==> f(vviews(v@)[l]) != x@,
            },
        decreases n - j,
    {
        if found.is_none() && v[j] == x {
            found = Some(j);
        }
        j += 1;
    }
    match found {
        Some(fj) => {
            proof {
                lemma_key_idx_is(vviews(v@), f, x@, fj as int);
            }
            let ghost pre = v@;
            v.remove(fj);
            v.insert(fj, x);
            proof {
                assert(v@ =~= pre.update(fj as int, v@[fj as int]));
                lemma_vviews_update(pre, fj as int, v@[fj as int]);
            }
        },
        None => {
            proof {
                lemma_key_idx_props(vviews(v@), f, x@);
                if key_idx(vviews(v@), f, x@) != -1 {
                    assert(f(vviews(v@)[key_idx(vviews(v@), f, x@)]) == x@);
                }
            }
            let ghost pre = v@;
            v.push(x);
            proof {
                lemma_vviews_push(pre, v@[v@.len() - 1]);
            }
        },
    }
}

/// Folds a list of tags into the accumulated list, key by key.
fn upsert_tags(v: &mut Vec<String>, mut xs: Vec<String>)
    ensures
        vviews(final(v)@) == upsert_all(vviews(old(v)@), tag_keyf(), vviews(xs@)),
{
    let ghost f = tag_keyf();
    let ghost goal = upsert_all(vviews(v@), f, vviews(xs@));
    while xs.len() > 0
        invariant
            f == tag_keyf(),
            upsert_all(vviews(v@), f, vviews(xs@)) == goal,
        decreases xs@.len(),
    {
        proof {
            lemma_vviews(xs@);
        }
        let ghost pre_xs = xs@;
        let x = xs.remove(0);
        proof {
            assert(xs@ =~= pre_xs.drop_first());
            assert(vviews(pre_xs).drop_first() =~= vviews(pre_xs.drop_first()));
            assert(vviews(pre_xs)[0] == x@);
        }
        upsert_tag(v, x);
    }
    proof {
        assert(vviews(xs@) =~= Seq::<Seq<char>>::empty());
    }
}

/// Folds a list of fields into the accumulated list, key by key.
fn upsert_fields(v: &mut Vec<FieldRecord>, mut xs: Vec<FieldRecord>)
    ensures
        vviews(final(v)@) == upsert_all(
            vviews(old(v)@),
            field_keyf(),
            vviews(xs@),
        ),
{
    let ghost f = field_keyf();
    let ghost goal = upsert_all(vviews(v@), f, vviews(xs@));
    while xs.len() > 0
        invariant
            f == field_keyf(),
            upsert_all(vviews(v@), f, vviews(xs@)) == goal,
        decreases xs@.len(),
    {
        proof {
            lemma_vviews(xs@);
        }
        let ghost pre_xs = xs@;
        let x = xs.remove(0);
        proof {
            assert(xs@ =~= pre_xs.drop_first());
            assert(vviews(pre_xs).drop_first() =~= vviews(pre_xs.drop_first()));
            assert(vviews(pre_xs)[0] == x@);
        }
        upsert_field(v, x);
    }
    proof {
        assert(vviews(xs@) =~= Seq::<FieldRecordV>::empty());
    }
}

/// Folds a list of variants into the accumulated list, key by key.
fn upsert_variants(v: &mut Vec<EnumVariant>, mut xs: Vec<EnumVariant>)
    ensures
        vviews(final(v)@) == upsert_all(
            vviews(old(v)@),
            variant_keyf(),
            vviews(xs@),
        ),
{
    let ghost f = variant_keyf();
    let ghost goal = upsert_all(vviews(v@), f, vviews(xs@));
    while xs.len() > 0
        invariant
            f == variant_keyf(),
            upsert_all(vviews(v@), f, vviews(xs@)) == goal,
        decreases xs@.len(),
    {
        proof {
            lemma_vviews(xs@);
        }
        let ghost pre_xs = xs@;
        let x = xs.remove(0);
        proof {
            assert(xs@ =~= pre_xs.drop_first());
            assert(vviews(pre_xs).drop_first() =~= vviews(pre_xs.drop_first()));
            assert(vviews(pre_xs)[0] == x@);
        }
        upsert_variant(v, x);
    }
    proof {
        assert(vviews(xs@) =~= Seq::<EnumVariantV>::empty());
    }
}


// ---------------------------------------------------------------------
// Name resolution and module listing.
// ---------------------------------------------------------------------

/// The first class or enum among `es` whose native identifier is
/// `native`, as `(module, visible name)`.
pub open spec fn resolve_in_entries(
    path: Seq<char>,
    es: Seq<EntryV>,
    native: Seq<char>,
) -> Option<(Seq<char>, Seq<char>)>
    decreases es.len(),
{
    if es.len() == 0 {
        None
    } else {
        match es[0] {
            EntryV::Class(c) => if c.native == native {
                Some((path, c.name))
            } else {
                resolve_in_entries(path, es.drop_first(), native)
            },
            EntryV::Enum(d) => if d.native == native {
                Some((path, d.name))
            } else {
                resolve_in_entries(path, es.drop_first(), native)
            },
            EntryV::Function(_) => resolve_in_entries(path, es.drop_first(), native),
        }
    }
}

/// The first registered class or enum with this native identifier, in
/// module order, then registration order.
pub open spec fn resolve_in_modules(
    ms: Seq<ModuleBucketV>,
    native: Seq<char>,
) -> Option<(Seq<char>, Seq<char>)>
    decreases ms.len(),
{
    if ms.len() == 0 {
        None
    } else {
        match resolve_in_entries(ms[0].path, ms[0].entries, native) {
            Some(r) => Some(r),
            None => resolve_in_modules(ms.drop_first(), native),
        }
    }
}

/// Resolution of a native identifier against the whole registry.
pub open spec fn spec_resolve(reg: RegistryV, native: Seq<char>) -> Option<
    (Seq<char>, Seq<char>),
> {
    resolve_in_modules(reg.modules, native)
}

impl Registry {
    /// Looks a native identifier up among the registered classes and
    /// enums, returning its module and scripting-visible name, or `None`
    /// while it is not yet known.
    pub fn resolve_named(&self, native: &String) -> (r: Option<(String, String)>)
        ensures
            match r {
                Some(p) => spec_resolve(self@, native@) == Some((p.0@, p.1@)),
                None => spec_resolve(self@, native@) is None,
            },
    {
        proof {
            lemma_vviews(self.modules@);
            assert(self@.modules.skip(0) =~= self@.modules);
        }
        let mut i: usize = 0;
        while i < self.modules.len()
            invariant
                i <= self.modules@.len(),
                self@.modules.len() == self.modules@.len(),
                forall|j: int|
                    0 <= j < self.modules@.len() ==> #[trigger] self@.modules[j]
                        == self.modules@[j]@,
                resolve_in_modules(self@.modules, native@) == resolve_in_modules(
                    self@.modules.skip(i as int),
                    native@,
                ),
            decreases self.modules@.len() - i,
        {
            let b = &self.modules[i];
            let ghost bv = self@.modules[i as int];
            proof {
                lemma_vviews(b.entries@);
                assert(self@.modules.skip(i as int)[0] == bv);
                assert(self@.modules.skip(i as int).drop_first() =~= self@.modules.skip(
                    i as int + 1,
                ));
                assert(bv.entries.skip(0) =~= bv.entries);
            }
            let mut j: usize = 0;
            while j < b.entries.len()
                invariant
                    j <= b.entries@.len(),
                    bv == b@,
                    bv.entries.len() == b.entries@.len(),
                    forall|l: int|
                        0 <= l < b.entries@.len() ==> #[trigger] bv.entries[l]
                            == b.entries@[l]@,
                    resolve_in_entries(bv.path, bv.entries, native@) == resolve_in_entries(
                        bv.path,
                        bv.entries.skip(j as int),
                        native@,
                    ),
                    resolve_in_modules(self@.modules, native@) == (match resolve_in_entries(
                        bv.path,
                        bv.entries,
                        native@,
                    ) {
                        Some(r) => Some(r),
                        None => resolve_in_modules(self@.modules.skip(i as int + 1), native@),
                    }),
                decreases b.entries@.len() - j,
            {
                proof {
                    assert(bv.entries.skip(j as int)[0] == bv.entries[j as int]);
                    assert(bv.entries.skip(j as int).drop_first() =~= bv.entries.skip(
                        j as int + 1,
                    ));
                }
                match &b.entries[j] {
                    Entry::Class(c) => {
                        if c.native == *native {
                            return Some((b.path.clone(), c.name.clone()));
                        }
                    },
                    Entry::Enum(d) => {
                        if d.native == *native {
                            return Some((b.path.clone(), d.name.clone()));
                        }
                    },
                    Entry::Function(_) => {},
                }
                j += 1;
            }
            proof {
                assert(bv.entries.skip(bv.entries.len() as int) =~= Seq::<EntryV>::empty());
            }
            i += 1;
        }
        proof {
            assert(self@.modules.skip(self@.modules.len() as int) =~= Seq::<
                ModuleBucketV,
            >::empty());
        }
        None
    }

    /// The module paths that hold at least one record, in first-seen
    /// order.
    pub fn all_modules(&self) -> (r: Vec<String>)
        ensures
            r@.len() == self@.modules.len(),
            forall|j: int| 0 <= j < r@.len() ==> #[trigger] r@[j]@ == self@.modules[j].path,
    {
        proof {
            lemma_vviews(self.modules@);
        }
        let mut r: Vec<String> = Vec::new();
        let mut i: usize = 0;
        while i < self.modules.len()
            invariant
                i <= self.modules@.len(),
                self@.modules.len() == self.modules@.len(),
                forall|j: int|
                    0 <= j < self.modules@.len() ==> #[trigger] self@.modules[j]
                        == self.modules@[j]@,
                r@.len() == i,
                forall|j: int| 0 <= j < i ==> #[trigger] r@[j]@ == self@.modules[j].path,
            decreases self.modules@.len() - i,
        {
            r.push(self.modules[i].path.clone());
            i += 1;
        }
        r
    }
}


impl Registry {
    /// Registers a free function. Without an explicit target module the
    /// function lands in the registry's fixed default module; an override
    /// appends it to that module's bucket instead.
    pub fn register_function(
        &mut self,
        name: String,
        params: Vec<crate::records::Param>,
        ret: crate::type_expr::TypeExpr,
        target: Option<String>,
    )
        ensures
            final(self)@ == spec_register(
                old(self)@,
                DeclarationRecordV::Function {
                    name: name@,
                    module: match target {
                        Some(m) => m@,
                        None => old(self)@.default_module,
                    },
                    params: vviews(params@),
                    ret: ret@,
                },
            ),
    {
        let module = match target {
            Some(m) => m,
            None => self.default_module.clone(),
        };
        let rec = DeclarationRecord::Function { name, module, params, ret };
        self.register(rec);
    }
}

} // verus!
