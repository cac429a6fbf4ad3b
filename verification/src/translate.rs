//! The type translator: maps a native type signature, given as a
//! structured expression, into the type expression it will have in the
//! stub, resolving user-defined types against the registry.

use vstd::prelude::*;
use crate::registry::Registry;
use crate::registry::RegistryV;
use crate::registry::spec_resolve;
use crate::type_expr::TypeExpr;
use crate::type_expr::TypeExprV;
use crate::type_expr::optional_of;
use crate::type_expr::spec_optional_of;
use crate::type_expr::spec_union_of;
use crate::type_expr::union_of;
use crate::type_expr::views_of;

verus! {

broadcast use vstd::std_specs::vec::group_vec_axioms;

/// The parameterized container shapes the translator understands.
#[derive(Clone, Copy, PartialEq, Eq, Structural)]
pub enum ContainerKind {
    /// A nullable wrapper; expects exactly one argument.
    Nullable,
    /// A homogeneous sequence; expects exactly one argument.
    List,
    /// A key-value mapping; expects exactly two arguments.
    Dict,
    /// A set; expects exactly one argument.
    SetOf,
    /// A fixed-size tuple; any arity, each slot kept separately.
    Tuple,
    /// A choice among alternatives; expects at least one argument.
    OneOf,
}

/// A native type signature as handed over by a declaration site: a small
/// structured expression, not raw source text.
pub enum NativeType {
    /// The native boolean type.
    Bool,
    /// Any signed native integer type.
    SignedInt,
    /// Any unsigned native integer type.
    UnsignedInt,
    /// Any native floating-point type.
    Floating,
    /// The native string types.
    Text,
    /// Raw byte strings.
    Binary,
    /// The native unit type, exposed as `None`.
    Unit,
    /// A parameterized container.
    Container { kind: ContainerKind, args: Vec<NativeType> },
    /// A reference to a user-defined type, by native identifier.
    UserRef { native: String },
    /// A native type with no translation rule.
    Opaque,
}

/// The translation of one native type against the registry's current
/// knowledge of named types.
pub open spec fn spec_translate(reg: RegistryV, t: NativeType) -> TypeExprV
    decreases t,
{
    match t {
        NativeType::Bool => TypeExprV::Primitive { name: "bool"@ },
        NativeType::SignedInt => TypeExprV::Primitive { name: "int"@ },
        NativeType::UnsignedInt => TypeExprV::Primitive { name: "int"@ },
        NativeType::Floating => TypeExprV::Primitive { name: "float"@ },
        NativeType::Text => TypeExprV::Primitive { name: "str"@ },
        NativeType::Binary => TypeExprV::Primitive { name: "bytes"@ },
        NativeType::Unit => TypeExprV::Primitive { name: "None"@ },
        NativeType::Container { kind, args } => match kind {
            ContainerKind::Nullable => if args@.len() == 1 {
                spec_optional_of(spec_translate(reg, args@[0]))
            } else {
                TypeExprV::BadArity { base: "Optional"@, got: args@.len() }
            },
            ContainerKind::List => if args@.len() == 1 {
                TypeExprV::Generic { base: "list"@, args: spec_translate_args(reg, args@) }
            } else {
                TypeExprV::BadArity { base: "list"@, got: args@.len() }
            },
            ContainerKind::Dict => if args@.len() == 2 {
                TypeExprV::Generic { base: "dict"@, args: spec_translate_args(reg, args@) }
            } else {
                TypeExprV::BadArity { base: "dict"@, got: args@.len() }
            },
            ContainerKind::SetOf => if args@.len() == 1 {
                TypeExprV::Generic { base: "set"@, args: spec_translate_args(reg, args@) }
            } else {
                TypeExprV::BadArity { base: "set"@, got: args@.len() }
            },
            ContainerKind::Tuple => TypeExprV::Generic {
                base: "tuple"@,
                args: spec_translate_args(reg, args@),
            },
            ContainerKind::OneOf => if args@.len() == 0 {
                TypeExprV::BadArity { base: "Union"@, got: 0 }
            } else {
                spec_union_of(spec_translate_args(reg, args@))
            },
        },
        NativeType::UserRef { native } => match spec_resolve(reg, native@) {
            Some(mn) => TypeExprV::Named { module: mn.0, name: mn.1 },
            None => TypeExprV::Unresolved { native: native@ },
        },
        NativeType::Opaque => TypeExprV::Unknown,
    }
}

/// The translations of a list of native types, in order.
pub open spec fn spec_translate_args(reg: RegistryV, args: Seq<NativeType>) -> Seq<TypeExprV>
    decreases args,
{
    if args.len() == 0 {
        Seq::empty()
    } else {
        spec_translate_args(reg, args.drop_last()).push(spec_translate(reg, args.last()))
    }
}

/// Translates one native type signature into the type expression that
/// will stand for it in the stub. User types resolve against the
/// registry; an unknown identifier becomes a deferred forward reference,
/// a native type with no rule becomes `Unknown`.
pub fn translate(reg: &Registry, t: &NativeType) -> (r: TypeExpr)
    ensures
        r@ == spec_translate(reg@, *t),
    decreases t,
{
    match t {
        NativeType::Bool => TypeExpr::Primitive { name: str_owned("bool") },
        NativeType::SignedInt => TypeExpr::Primitive { name: str_owned("int") },
        NativeType::UnsignedInt => TypeExpr::Primitive { name: str_owned("int") },
        NativeType::Floating => TypeExpr::Primitive { name: str_owned("float") },
        NativeType::Text => TypeExpr::Primitive { name: str_owned("str") },
        NativeType::Binary => TypeExpr::Primitive { name: str_owned("bytes") },
        NativeType::Unit => TypeExpr::Primitive { name: str_owned("None") },
        NativeType::Container { kind, args } => {
            let n = args.len();
            match kind {
                ContainerKind::Nullable => {
                    if n == 1 {
                        let inner = translate(reg, &args[0]);
                        optional_of(inner)
                    } else {
                        TypeExpr::BadArity { base: str_owned("Optional"), got: n }
                    }
                },
                ContainerKind::List => {
                    if n == 1 {
                        TypeExpr::Generic { base: str_owned("list"), args: translate_args(
                            reg,
                            args,
                        ) }
                    } else {
                        TypeExpr::BadArity { base: str_owned("list"), got: n }
                    }
                },
                ContainerKind::Dict => {
                    if n == 2 {
                        TypeExpr::Generic { base: str_owned("dict"), args: translate_args(
                            reg,
                            args,
                        ) }
                    } else {
                        TypeExpr::BadArity { base: str_owned("dict"), got: n }
                    }
                },
                ContainerKind::SetOf => {
                    if n == 1 {
                        TypeExpr::Generic { base: str_owned("set"), args: translate_args(
                            reg,
                            args,
                        ) }
                    } else {
                        TypeExpr::BadArity { base: str_owned("set"), got: n }
                    }
                },
                ContainerKind::Tuple => TypeExpr::Generic {
                    base: str_owned("tuple"),
                    args: translate_args(reg, args),
                },
                ContainerKind::OneOf => {
                    if n == 0 {
                        TypeExpr::BadArity { base: str_owned("Union"), got: 0 }
                    } else {
                        union_of(translate_args(reg, args))
                    }
                },
            }
        },
        NativeType::UserRef { native } => {
            match reg.resolve_named(native) {
                Some(mn) => TypeExpr::Named { module: mn.0, name: mn.1 },
                None => TypeExpr::Unresolved { native: native.clone() },
            }
        },
        NativeType::Opaque => TypeExpr::Unknown,
    }
}

/// Translates each argument in order.
fn translate_args(reg: &Registry, args: &Vec<NativeType>) -> (r: Vec<TypeExpr>)
    ensures
        views_of(r@) == spec_translate_args(reg@, args@),
    decreases args,
{
    let mut r: Vec<TypeExpr> = Vec::new();
    let mut i: usize = 0;
    proof {
        crate::type_expr::lemma_views_of(r@);
        assert(args@.take(0) =~= Seq::<NativeType>::empty());
    }
    while i < args.len()
        invariant
            i <= args@.len(),
            views_of(r@) =~= spec_translate_args(reg@, args@.take(i as int)),
        decreases args@.len() - i,
    {
        let ghost old_r = r@;
        let x = translate(reg, &args[i]);
        r.push(x);
        proof {
            crate::type_expr::lemma_views_of_push(old_r, r@[r@.len() - 1]);
            assert(args@.take(i as int + 1).drop_last() =~= args@.take(i as int));
            assert(args@.take(i as int + 1).last() == args@[i as int]);
        }
        i += 1;
    }
    proof {
        assert(args@.take(args@.len() as int) =~= args@);
    }
    r
}

/// An owned copy of a fixed name.
fn str_owned(s: &str) -> (r: String)
    ensures
        r@ == s@,
{
    s.to_owned()
}

/// Translation is deterministic: any two results obtained for the same
/// native type against the same registry state are the same type
/// expression, and translation is total, every native type having a
/// defined image.
pub proof fn lemma_translate_deterministic(
    reg: RegistryV,
    t: NativeType,
    r1: TypeExprV,
    r2: TypeExprV,
)
    requires
        r1 == spec_translate(reg, t),
        r2 == spec_translate(reg, t),
    ensures
        r1 == r2,
{
}

/// Whether `w` is the nullable wrapper around exactly `t`.
pub open spec fn is_nullable_of(w: NativeType, t: NativeType) -> bool {
    &&& w matches NativeType::Container { kind, args }
    &&& w->kind == ContainerKind::Nullable
    &&& w->args@ =~= seq![t]
}

/// A doubled nullable wrapper translates exactly as the single one: the
/// translation of `Optional(Optional(t))` is the translation of
/// `Optional(t)`, for any native type `t`.
pub proof fn lemma_nested_optional_collapses(
    reg: RegistryV,
    outer: NativeType,
    mid: NativeType,
    t: NativeType,
)
    requires
        is_nullable_of(outer, mid),
        is_nullable_of(mid, t),
    ensures
        spec_translate(reg, outer) == spec_translate(reg, mid),
{
    assert(spec_translate(reg, outer) == spec_optional_of(spec_translate(reg, mid)));
    assert(spec_translate(reg, mid) == spec_optional_of(spec_translate(reg, t)));
}

} // verus!

