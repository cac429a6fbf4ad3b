//! The type expression model: a closed algebraic representation of a type
//! as it will appear in a rendered stub document.

use vstd::prelude::*;

verus! {

broadcast use vstd::std_specs::vec::group_vec_axioms;

/// Mathematical model of a [`TypeExpr`]: the same variants over `Seq<char>`
/// and `Seq` instead of `String` and `Vec`.
#[verifier::ext_equal]
pub enum TypeExprV {
    /// A fixed scripting-language primitive, e.g. `int`, `str`, `bool`.
    Primitive { name: Seq<char> },
    /// A user-defined class or enum, under its scripting-visible name.
    Named { module: Seq<char>, name: Seq<char> },
    /// A parameterized container such as `list[T]` or `dict[K, V]`.
    Generic { base: Seq<char>, args: Seq<TypeExprV> },
    /// A union of alternatives; order-preserving, free of nested unions.
    Union { members: Seq<TypeExprV> },
    /// A nullable type; never directly contains another `Optional`.
    Optional { inner: Box<TypeExprV> },
    /// A native type with no translation rule; rendered as the universal
    /// `Any` annotation.
    Unknown,
    /// A forward reference to a user type not yet registered; re-resolved
    /// when rendering begins.
    Unresolved { native: Seq<char> },
    /// A container that was seen with an unexpected argument count;
    /// surfaced as an arity error when rendering begins.
    BadArity { base: Seq<char>, got: nat },
}

/// A type expression as it will appear in the stub: primitives, named user
/// types, parameterized generics, unions, nullable wrappers, and two
/// markers (`Unresolved`, `BadArity`) that defer reporting to render time.
pub enum TypeExpr {
    Primitive { name: String },
    Named { module: String, name: String },
    Generic { base: String, args: Vec<TypeExpr> },
    Union { members: Vec<TypeExpr> },
    Optional { inner: Box<TypeExpr> },
    Unknown,
    Unresolved { native: String },
    BadArity { base: String, got: usize },
}

/// The mathematical value of a type expression.
pub open spec fn expr_view(t: TypeExpr) -> TypeExprV
    decreases t,
{
    match t {
        TypeExpr::Primitive { name } => TypeExprV::Primitive { name: name@ },
        TypeExpr::Named { module, name } => TypeExprV::Named { module: module@, name: name@ },
        TypeExpr::Generic { base, args } => TypeExprV::Generic {
            base: base@,
            args: views_of(args@),
        },
        TypeExpr::Union { members } => TypeExprV::Union { members: views_of(members@) },
        TypeExpr::Optional { inner } => TypeExprV::Optional { inner: Box::new(expr_view(*inner)) },
        TypeExpr::Unknown => TypeExprV::Unknown,
        TypeExpr::Unresolved { native } => TypeExprV::Unresolved { native: native@ },
        TypeExpr::BadArity { base, got } => TypeExprV::BadArity { base: base@, got: got as nat },
    }
}

/// The views of a sequence of type expressions, element by element.
pub open spec fn views_of(s: Seq<TypeExpr>) -> Seq<TypeExprV>
    decreases s,
{
    if s.len() == 0 {
        Seq::empty()
    } else {
        seq![expr_view(s[0])] + views_of(s.drop_first())
    }
}

impl View for TypeExpr {
    type V = TypeExprV;

    open spec fn view(&self) -> TypeExprV {
        expr_view(*self)
    }
}

/// `views_of` maps the sequence pointwise.
pub proof fn lemma_views_of(s: Seq<TypeExpr>)
    ensures
        views_of(s).len() == s.len(),
        forall|i: int| 0 <= i < s.len() ==> #[trigger] views_of(s)[i] == s[i]@,
    decreases s.len(),
{
    if s.len() != 0 {
        lemma_views_of(s.drop_first());
        assert forall|i: int| 0 <= i < s.len() implies #[trigger] views_of(s)[i] == s[i]@ by {
            if i > 0 {
                assert(views_of(s)[i] == views_of(s.drop_first())[i - 1]);
                assert(s.drop_first()[i - 1] == s[i]);
            }
        }
    }
}

/// Extending a sequence by one element extends its views by that
/// element's view.
pub proof fn lemma_views_of_push(s: Seq<TypeExpr>, x: TypeExpr)
    ensures
        views_of(s.push(x)) =~= views_of(s).push(x@),
{
    lemma_views_of(s.push(x));
    lemma_views_of(s);
    assert forall|i: int|
        0 <= i < s.len() + 1 implies views_of(s.push(x))[i] == views_of(s).push(x@)[i] by {
        assert(views_of(s.push(x))[i] == s.push(x)[i]@);
        if i < s.len() {
            assert(s.push(x)[i] == s[i]);
            assert(views_of(s)[i] == s[i]@);
        } else {
            assert(s.push(x)[i] == x);
        }
    }
}

/// Wraps a type in `Optional`, collapsing `Optional(Optional(t))` to
/// `Optional(t)`.
pub open spec fn spec_optional_of(t: TypeExprV) -> TypeExprV {
    match t {
        TypeExprV::Optional { .. } => t,
        _ => TypeExprV::Optional { inner: Box::new(t) },
    }
}

/// Builds the nullable form of `t`, normalizing away a doubled `Optional`.
pub fn optional_of(t: TypeExpr) -> (r: TypeExpr)
    ensures
        r@ == spec_optional_of(t@),
{
    match t {
        TypeExpr::Optional { inner } => TypeExpr::Optional { inner },
        _ => TypeExpr::Optional { inner: Box::new(t) },
    }
}

/// The members a type contributes to a union: its own members if it is a
/// union itself, otherwise just the type.
pub open spec fn union_members_of(m: TypeExprV) -> Seq<TypeExprV> {
    match m {
        TypeExprV::Union { members } => members,
        _ => seq![m],
    }
}

/// Replaces each direct `Union` member by its own members, one level deep.
pub open spec fn spec_flatten_union(ms: Seq<TypeExprV>) -> Seq<TypeExprV>
    decreases ms.len(),
{
    if ms.len() == 0 {
        Seq::empty()
    } else {
        union_members_of(ms[0]) + spec_flatten_union(ms.drop_first())
    }
}

/// Keeps the first occurrence of each member, preserving order.
pub open spec fn spec_dedup(ms: Seq<TypeExprV>) -> Seq<TypeExprV>
    decreases ms.len(),
{
    if ms.len() == 0 {
        Seq::empty()
    } else {
        let rest = spec_dedup(ms.drop_last());
        if rest.contains(ms.last()) {
            rest
        } else {
            rest.push(ms.last())
        }
    }
}

/// The union of the given alternatives: nested unions are flattened,
/// duplicates dropped, and a union of exactly one member collapses to
/// that member.
pub open spec fn spec_union_of(ms: Seq<TypeExprV>) -> TypeExprV {
    let d = spec_dedup(spec_flatten_union(ms));
    if d.len() == 1 {
        d[0]
    } else {
        TypeExprV::Union { members: d }
    }
}

impl TypeExpr {
    /// Structural equality of two type expressions, decided recursively.
    pub fn deep_eq(&self, other: &TypeExpr) -> (r: bool)
        ensures
            r == (self@ == other@),
        decreases self,
    {
        match (self, other) {
            (TypeExpr::Primitive { name: n1 }, TypeExpr::Primitive { name: n2 }) => *n1 == *n2,
            (
                TypeExpr::Named { module: m1, name: n1 },
                TypeExpr::Named { module: m2, name: n2 },
            ) => *m1 == *m2 && *n1 == *n2,
            (
                TypeExpr::Generic { base: b1, args: a1 },
                TypeExpr::Generic { base: b2, args: a2 },
            ) => {
                if !(*b1 == *b2) {
                    return false;
                }
                deep_eq_all(a1, a2)
            },
            (TypeExpr::Union { members: m1 }, TypeExpr::Union { members: m2 }) => deep_eq_all(
                m1,
                m2,
            ),
            (TypeExpr::Optional { inner: i1 }, TypeExpr::Optional { inner: i2 }) => i1.deep_eq(
                i2,
            ),
            (TypeExpr::Unknown, TypeExpr::Unknown) => true,
            (
                TypeExpr::Unresolved { native: n1 },
                TypeExpr::Unresolved { native: n2 },
            ) => *n1 == *n2,
            (
                TypeExpr::BadArity { base: b1, got: g1 },
                TypeExpr::BadArity { base: b2, got: g2 },
            ) => *b1 == *b2 && *g1 == *g2,
            _ => false,
        }
    }
}

/// Pointwise structural equality of two argument lists.
fn deep_eq_all(a: &Vec<TypeExpr>, b: &Vec<TypeExpr>) -> (r: bool)
    ensures
        r == (views_of(a@) == views_of(b@)),
    decreases a,
{
    proof {
        lemma_views_of(a@);
        lemma_views_of(b@);
    }
    if a.len() != b.len() {
        return false;
    }
    let mut i: usize = 0;
    while i < a.len()
        invariant
            i <= a.len(),
            a@.len() == b@.len(),
            views_of(a@).len() == a@.len(),
            views_of(b@).len() == b@.len(),
            forall|j: int| 0 <= j < a@.len() ==> #[trigger] views_of(a@)[j] == a@[j]@,
            forall|j: int| 0 <= j < b@.len() ==> #[trigger] views_of(b@)[j] == b@[j]@,
            forall|j: int| 0 <= j < i ==> views_of(a@)[j] == views_of(b@)[j],
        decreases a.len() - i,
    {
        if !a[i].deep_eq(&b[i]) {
            proof {
                assert(views_of(a@)[i as int] == a@[i as int]@);
                assert(views_of(b@)[i as int] == b@[i as int]@);
            }
            return false;
        }
        i += 1;
    }
    proof {
        assert(views_of(a@) =~= views_of(b@));
    }
    true
}

/// Builds the union of `members`, flattening nested unions, dropping
/// duplicates while preserving first-occurrence order, and collapsing a
/// single-member union to the member itself.
pub fn union_of(members: Vec<TypeExpr>) -> (r: TypeExpr)
    ensures
        r@ == spec_union_of(views_of(members@)),
{
    let ghost mvs = views_of(members@);
    proof {
        lemma_views_of(members@);
    }
    let mut flat: Vec<TypeExpr> = Vec::new();
    let mut i: usize = 0;
    while i < members.len()
        invariant
            i <= members@.len(),
            mvs == views_of(members@),
            mvs.len() == members@.len(),
            forall|j: int| 0 <= j < members@.len() ==> #[trigger] mvs[j] == members@[j]@,
            views_of(flat@) =~= spec_flatten_union(mvs.take(i as int)),
        decreases members@.len() - i,
    {
        proof {
            lemma_flatten_take_step(mvs, i as int);
        }
        match &members[i] {
            TypeExpr::Union { members: inner } => {
                proof {
                    lemma_views_of(inner@);
                }
                let mut j: usize = 0;
                while j < inner.len()
                    invariant
                        j <= inner@.len(),
                        views_of(inner@).len() == inner@.len(),
                        forall|k: int|
                            0 <= k < inner@.len() ==> #[trigger] views_of(inner@)[k]
                                == inner@[k]@,
                        views_of(flat@) =~= spec_flatten_union(mvs.take(i as int)) + views_of(
                            inner@,
                        ).take(j as int),
                    decreases inner@.len() - j,
                {
                    let ghost old_flat = flat@;
                    let x = inner[j].clone_expr();
                    flat.push(x);
                    proof {
                        lemma_views_of_push(old_flat, flat@[flat@.len() - 1]);
                        assert(views_of(inner@).take(j as int + 1) =~= views_of(inner@).take(
                            j as int,
                        ).push(views_of(inner@)[j as int]));
                    }
                    j += 1;
                }
                proof {
                    assert(views_of(inner@).take(inner@.len() as int) =~= views_of(inner@));
                    assert(union_members_of(mvs[i as int]) == views_of(inner@));
                }
            },
            _ => {
                let ghost old_flat = flat@;
                let x = members[i].clone_expr();
                flat.push(x);
                proof {
                    lemma_views_of_push(old_flat, flat@[flat@.len() - 1]);
                    assert(union_members_of(mvs[i as int]) =~= seq![members@[i as int]@]);
                }
            },
        }
        i += 1;
    }
    proof {
        assert(mvs.take(members@.len() as int) =~= mvs);
    }
    let ghost fvs = views_of(flat@);
    proof {
        lemma_views_of(flat@);
    }
    let mut out: Vec<TypeExpr> = Vec::new();
    let mut k: usize = 0;
    while k < flat.len()
        invariant
            k <= flat@.len(),
            fvs == views_of(flat@),
            fvs.len() == flat@.len(),
            forall|j: int| 0 <= j < flat@.len() ==> #[trigger] fvs[j] == flat@[j]@,
            views_of(out@) =~= spec_dedup(fvs.take(k as int)),
        decreases flat@.len() - k,
    {
        proof {
            assert(fvs.take(k as int + 1).drop_last() =~= fvs.take(k as int));
            assert(fvs.take(k as int + 1).last() == fvs[k as int]);
        }
        let dup = contains_expr(&out, &flat[k]);
        if !dup {
            let ghost old_out = out@;
            let x = flat[k].clone_expr();
            out.push(x);
            proof {
                lemma_views_of_push(old_out, out@[out@.len() - 1]);
            }
        }
        k += 1;
    }
    proof {
        assert(fvs.take(flat@.len() as int) =~= fvs);
    }
    if out.len() == 1 {
        let ghost old_out = out@;
        let r = out.pop().unwrap();
        proof {
            lemma_views_of(old_out);
            assert(r@ == views_of(old_out)[0]);
        }
        r
    } else {
        proof {
            lemma_views_of(out@);
        }
        TypeExpr::Union { members: out }
    }
}

/// Whether some element of `v` is structurally equal to `x`.
fn contains_expr(v: &Vec<TypeExpr>, x: &TypeExpr) -> (r: bool)
    ensures
        r == views_of(v@).contains(x@),
{
    proof {
        lemma_views_of(v@);
    }
    let mut i: usize = 0;
    while i < v.len()
        invariant
            i <= v@.len(),
            views_of(v@).len() == v@.len(),
            forall|j: int| 0 <= j < v@.len() ==> #[trigger] views_of(v@)[j] == v@[j]@,
            forall|j: int| 0 <= j < i ==> views_of(v@)[j] != x@,
        decreases v@.len() - i,
    {
        if v[i].deep_eq(x) {
            proof {
                assert(views_of(v@)[i as int] == x@);
                assert(views_of(v@).contains(x@));
            }
            return true;
        }
        i += 1;
    }
    proof {
        assert forall|j: int| 0 <= j < views_of(v@).len() implies views_of(v@)[j] != x@ by {}
    }
    false
}

/// One step of flattening: the flattened prefix grows by the members of
/// the next element.
pub proof fn lemma_flatten_take_step(ms: Seq<TypeExprV>, i: int)
    requires
        0 <= i < ms.len(),
    ensures
        spec_flatten_union(ms.take(i + 1)) =~= spec_flatten_union(ms.take(i))
            + union_members_of(ms[i]),
    decreases i,
{
    if i == 0 {
        assert(ms.take(0) =~= Seq::<TypeExprV>::empty());
        assert(ms.take(1)[0] == ms[0]);
        assert(ms.take(1).drop_first() =~= Seq::<TypeExprV>::empty());
        assert(spec_flatten_union(ms.take(1)) == union_members_of(ms.take(1)[0])
            + spec_flatten_union(ms.take(1).drop_first()));
    } else {
        let d = ms.drop_first();
        lemma_flatten_take_step(d, i - 1);
        assert(ms.take(i + 1)[0] == ms[0]);
        assert(ms.take(i)[0] == ms[0]);
        assert(ms.take(i + 1).drop_first() =~= d.take(i));
        assert(ms.take(i).drop_first() =~= d.take(i - 1));
        assert(d[i - 1] == ms[i]);
        assert(spec_flatten_union(ms.take(i + 1)) == union_members_of(ms.take(i + 1)[0])
            + spec_flatten_union(ms.take(i + 1).drop_first()));
        assert(spec_flatten_union(ms.take(i)) == union_members_of(ms.take(i)[0])
            + spec_flatten_union(ms.take(i).drop_first()));
    }
}

impl TypeExpr {
    /// A structural copy of the expression.
    pub fn clone_expr(&self) -> (r: TypeExpr)
        ensures
            r@ == self@,
        decreases self,
    {
        match self {
            TypeExpr::Primitive { name } => TypeExpr::Primitive { name: name.clone() },
            TypeExpr::Named { module, name } => TypeExpr::Named {
                module: module.clone(),
                name: name.clone(),
            },
            TypeExpr::Generic { base, args } => TypeExpr::Generic {
                base: base.clone(),
                args: clone_exprs(args),
            },
            TypeExpr::Union { members } => TypeExpr::Union { members: clone_exprs(members) },
            TypeExpr::Optional { inner } => TypeExpr::Optional {
                inner: Box::new(inner.clone_expr()),
            },
            TypeExpr::Unknown => TypeExpr::Unknown,
            TypeExpr::Unresolved { native } => TypeExpr::Unresolved { native: native.clone() },
            TypeExpr::BadArity { base, got } => TypeExpr::BadArity {
                base: base.clone(),
                got: *got,
            },
        }
    }
}

/// A structural copy of an argument list.
fn clone_exprs(v: &Vec<TypeExpr>) -> (r: Vec<TypeExpr>)
    ensures
        views_of(r@) == views_of(v@),
    decreases v,
{
    proof {
        lemma_views_of(v@);
    }
    let mut r: Vec<TypeExpr> = Vec::new();
    let mut i: usize = 0;
    while i < v.len()
        invariant
            i <= v@.len(),
            r@.len() == i,
            views_of(v@).len() == v@.len(),
            forall|j: int| 0 <= j < v@.len() ==> #[trigger] views_of(v@)[j] == v@[j]@,
            views_of(r@) =~= views_of(v@).take(i as int),
        decreases v@.len() - i,
    {
        let ghost old_r = r@;
        let x = v[i].clone_expr();
        r.push(x);
        proof {
            lemma_views_of_push(old_r, r@[r@.len() - 1]);
            assert(views_of(v@).take(i as int + 1) =~= views_of(v@).take(i as int).push(
                views_of(v@)[i as int],
            ));
        }
        i += 1;
    }
    proof {
        assert(views_of(v@).take(v@.len() as int) =~= views_of(v@));
    }
    r
}

} // verus!
