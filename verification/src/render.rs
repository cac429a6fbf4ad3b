//! The stub renderer: a deterministic, idempotent serializer that turns
//! the registry's contents into one textual stub document per module.

use vstd::prelude::*;
use crate::records::ClassDataV;
use crate::records::EntryV;
use crate::records::MethodKind;
use crate::records::MethodRecord;
use crate::records::MethodRecordV;
use crate::records::Param;
use crate::records::ParamV;
use crate::records::lemma_vviews;
use crate::records::lemma_vviews_push;
use crate::records::vviews;
use crate::registry::Registry;
use crate::registry::RegistryV;
use crate::registry::bucket_keyf;
use crate::registry::key_idx;
use crate::registry::spec_resolve;
use crate::type_expr::TypeExpr;
use crate::type_expr::TypeExprV;
use crate::type_expr::views_of;
use vstd::string::StrSliceExecFns;

verus! {

broadcast use vstd::std_specs::vec::group_vec_axioms;

/// Why a type expression cannot be rendered: a forward reference that was
/// never registered, or a container seen with a wrong argument count.
#[derive(Debug)]
pub enum TypeIssue {
    Missing { native: String },
    Arity { base: String, got: usize },
}

/// Model of a [`TypeIssue`].
#[verifier::ext_equal]
pub enum TypeIssueV {
    Missing { native: Seq<char> },
    Arity { base: Seq<char>, got: nat },
}

impl View for TypeIssue {
    type V = TypeIssueV;

    open spec fn view(&self) -> TypeIssueV {
        match self {
            TypeIssue::Missing { native } => TypeIssueV::Missing { native: native@ },
            TypeIssue::Arity { base, got } => TypeIssueV::Arity {
                base: base@,
                got: *got as nat,
            },
        }
    }
}

/// A render-time hard error, carrying the declaration it arose in.
#[derive(Debug)]
pub enum RenderError {
    /// A forward reference that was still unresolved when rendering began.
    MissingType { decl: String, native: String },
    /// A generic container that was recorded with an unexpected argument
    /// count.
    UnsupportedArity { decl: String, base: String, got: usize },
}

/// Model of a [`RenderError`].
#[verifier::ext_equal]
pub enum RenderErrorV {
    MissingType { decl: Seq<char>, native: Seq<char> },
    UnsupportedArity { decl: Seq<char>, base: Seq<char>, got: nat },
}

impl View for RenderError {
    type V = RenderErrorV;

    open spec fn view(&self) -> RenderErrorV {
        match self {
            RenderError::MissingType { decl, native } => RenderErrorV::MissingType {
                decl: decl@,
                native: native@,
            },
            RenderError::UnsupportedArity { decl, base, got } => RenderErrorV::UnsupportedArity {
                decl: decl@,
                base: base@,
                got: *got as nat,
            },
        }
    }
}

/// The issue `e`, attributed to the declaration named `decl`.
pub open spec fn spec_issue_in(decl: Seq<char>, e: TypeIssueV) -> RenderErrorV {
    match e {
        TypeIssueV::Missing { native } => RenderErrorV::MissingType { decl, native },
        TypeIssueV::Arity { base, got } => RenderErrorV::UnsupportedArity { decl, base, got },
    }
}

/// One rendered module: its stub text, and the non-fatal structural
/// warnings found while walking it — one per synthesized placeholder
/// class whose methods arrived without their class ever being registered.
pub struct Rendered {
    pub text: String,
    pub warnings: Vec<String>,
}

// ---------------------------------------------------------------------
// Rendering a type expression.
// ---------------------------------------------------------------------

/// The stub spelling of a resolved name, relative to the module being
/// rendered.
pub open spec fn spec_qualified(module: Seq<char>, name: Seq<char>, current: Seq<char>) -> Seq<
    char,
> {
    if module == current {
        name
    } else {
        module + "."@ + name
    }
}

/// The annotation text of one type expression, or the issue that stops
/// it. Forward references resolve against the registry now, when
/// rendering has begun.
pub open spec fn spec_render_type(reg: RegistryV, t: TypeExprV, current: Seq<char>) -> Result<
    Seq<char>,
    TypeIssueV,
>
    decreases t,
{
    match t {
        TypeExprV::Primitive { name } => Ok(name),
        TypeExprV::Named { module, name } => Ok(spec_qualified(module, name, current)),
        TypeExprV::Generic { base, args } => match spec_render_type_list(reg, args, current) {
            Ok(a) => Ok(base + "["@ + a + "]"@),
            Err(e) => Err(e),
        },
        TypeExprV::Union { members } => match spec_render_type_list(reg, members, current) {
            Ok(a) => Ok("Union["@ + a + "]"@),
            Err(e) => Err(e),
        },
        TypeExprV::Optional { inner } => match spec_render_type(reg, *inner, current) {
            Ok(a) => Ok("Optional["@ + a + "]"@),
            Err(e) => Err(e),
        },
        TypeExprV::Unknown => Ok("Any"@),
        TypeExprV::Unresolved { native } => match spec_resolve(reg, native) {
            Some(mn) => Ok(spec_qualified(mn.0, mn.1, current)),
            None => Err(TypeIssueV::Missing { native }),
        },
        TypeExprV::BadArity { base, got } => Err(TypeIssueV::Arity { base, got }),
    }
}

/// A comma-separated list of type annotations.
pub open spec fn spec_render_type_list(
    reg: RegistryV,
    ts: Seq<TypeExprV>,
    current: Seq<char>,
) -> Result<Seq<char>, TypeIssueV>
    decreases ts,
{
    if ts.len() == 0 {
        Ok(Seq::empty())
    } else {
        match spec_render_type(reg, ts[0], current) {
            Err(e) => Err(e),
            Ok(h) => match spec_render_type_rest(reg, ts.drop_first(), current) {
                Err(e) => Err(e),
                Ok(t) => Ok(h + t),
            },
        }
    }
}

/// The tail of a comma-separated list, each item preceded by `, `.
pub open spec fn spec_render_type_rest(
    reg: RegistryV,
    ts: Seq<TypeExprV>,
    current: Seq<char>,
) -> Result<Seq<char>, TypeIssueV>
    decreases ts,
{
    if ts.len() == 0 {
        Ok(Seq::empty())
    } else {
        match spec_render_type(reg, ts[0], current) {
            Err(e) => Err(e),
            Ok(h) => match spec_render_type_rest(reg, ts.drop_first(), current) {
                Err(e) => Err(e),
                Ok(t) => Ok(", "@ + h + t),
            },
        }
    }
}

/// Renders one type expression as its stub annotation, resolving any
/// deferred forward reference against the registry, and reporting the
/// issue otherwise.
pub fn render_type(reg: &Registry, t: &TypeExpr, current: &String) -> (r: Result<
    String,
    TypeIssue,
>)
    ensures
        match r {
            Ok(s) => spec_render_type(reg@, t@, current@) == Ok::<_, TypeIssueV>(s@),
            Err(e) => spec_render_type(reg@, t@, current@) == Err::<Seq<char>, _>(e@),
        },
    decreases t,
{
    match t {
        TypeExpr::Primitive { name } => Ok(name.clone()),
        TypeExpr::Named { module, name } => Ok(qualified(module, name, current)),
        TypeExpr::Generic { base, args } => match render_type_list(reg, args, current) {
            Ok(a) => {
                let mut s = base.clone();
                s.append("[");
                s.append(a.as_str());
                s.append("]");
                Ok(s)
            },
            Err(e) => Err(e),
        },
        TypeExpr::Union { members } => match render_type_list(reg, members, current) {
            Ok(a) => {
                let mut s = String::new();
                s.append("Union[");
                s.append(a.as_str());
                s.append("]");
                Ok(s)
            },
            Err(e) => Err(e),
        },
        TypeExpr::Optional { inner } => match render_type(reg, inner, current) {
            Ok(a) => {
                let mut s = String::new();
                s.append("Optional[");
                s.append(a.as_str());
                s.append("]");
                Ok(s)
            },
            Err(e) => Err(e),
        },
        TypeExpr::Unknown => {
            let mut s = String::new();
            s.append("Any");
            Ok(s)
        },
        TypeExpr::Unresolved { native } => match reg.resolve_named(native) {
            Some(mn) => Ok(qualified(&mn.0, &mn.1, current)),
            None => Err(TypeIssue::Missing { native: native.clone() }),
        },
        TypeExpr::BadArity { base, got } => Err(
            TypeIssue::Arity { base: base.clone(), got: *got },
        ),
    }
}

/// The stub spelling of a resolved name, relative to the module being
/// rendered.
fn qualified(module: &String, name: &String, current: &String) -> (r: String)
    ensures
        r@ == spec_qualified(module@, name@, current@),
{
    if *module == *current {
        name.clone()
    } else {
        let mut s = module.clone();
        s.append(".");
        s.append(name.as_str());
        s
    }
}

/// Renders a comma-separated argument list.
fn render_type_list(reg: &Registry, ts: &Vec<TypeExpr>, current: &String) -> (r: Result<
    String,
    TypeIssue,
>)
    ensures
        match r {
            Ok(s) => spec_render_type_list(reg@, views_of(ts@), current@) == Ok::<
                _,
                TypeIssueV,
            >(s@),
            Err(e) => spec_render_type_list(reg@, views_of(ts@), current@) == Err::<
                Seq<char>,
                _,
            >(e@),
        },
    decreases ts,
{
    let ghost tvs = views_of(ts@);
    proof {
        crate::type_expr::lemma_views_of(ts@);
    }
    if ts.len() == 0 {
        return Ok(String::new());
    }
    let mut out: String;
    match render_type(reg, &ts[0], current) {
        Ok(h) => {
            out = h;
        },
        Err(e) => {
            return Err(e);
        },
    }
    let mut j: usize = 1;
    proof {
        assert(tvs.skip(1) =~= tvs.drop_first());
    }
    while j < ts.len()
        invariant
            1 <= j <= ts@.len(),
            tvs == views_of(ts@),
            tvs.len() == ts@.len(),
            forall|l: int| 0 <= l < ts@.len() ==> #[trigger] tvs[l] == ts@[l]@,
            spec_render_type_list(reg@, tvs, current@) == (match spec_render_type_rest(
                reg@,
                tvs.skip(j as int),
                current@,
            ) {
                Err(e) => Err::<Seq<char>, TypeIssueV>(e),
                Ok(t) => Ok(out@ + t),
            }),
        decreases ts@.len() - j,
    {
        proof {
            assert(tvs.skip(j as int)[0] == tvs[j as int]);
            assert(tvs.skip(j as int).drop_first() =~= tvs.skip(j as int + 1));
        }
        match render_type(reg, &ts[j], current) {
            Ok(h) => {
                let ghost old_out = out@;
                out.append(", ");
                out.append(h.as_str());
                proof {
                    match spec_render_type_rest(reg@, tvs.skip(j as int + 1), current@) {
                        Ok(t2) => {
                            assert(old_out + (", "@ + h@ + t2) =~= out@ + t2);
                        },
                        Err(_) => {},
                    }
                }
            },
            Err(e) => {
                return Err(e);
            },
        }
        j += 1;
    }
    proof {
        assert(tvs.skip(ts@.len() as int) =~= Seq::<TypeExprV>::empty());
    }
    Ok(out)
}


// ---------------------------------------------------------------------
// Signatures.
// ---------------------------------------------------------------------

/// One parameter as it appears in a signature; a recorded default value
/// shows as `= ...`.
pub open spec fn spec_render_param(reg: RegistryV, p: ParamV, current: Seq<char>) -> Result<
    Seq<char>,
    TypeIssueV,
> {
    match spec_render_type(reg, p.ty, current) {
        Err(e) => Err(e),
        Ok(t) => Ok(
            p.name + ": "@ + t + (if p.has_default {
                " = ..."@
            } else {
                Seq::<char>::empty()
            }),
        ),
    }
}

/// A comma-separated parameter list.
pub open spec fn spec_render_params(reg: RegistryV, ps: Seq<ParamV>, current: Seq<char>) -> Result<
    Seq<char>,
    TypeIssueV,
>
    decreases ps,
{
    if ps.len() == 0 {
        Ok(Seq::empty())
    } else {
        match spec_render_param(reg, ps[0], current) {
            Err(e) => Err(e),
            Ok(h) => match spec_render_params_rest(reg, ps.drop_first(), current) {
                Err(e) => Err(e),
                Ok(t) => Ok(h + t),
            },
        }
    }
}

/// The tail of a parameter list, each entry preceded by `, `.
pub open spec fn spec_render_params_rest(
    reg: RegistryV,
    ps: Seq<ParamV>,
    current: Seq<char>,
) -> Result<Seq<char>, TypeIssueV>
    decreases ps,
{
    if ps.len() == 0 {
        Ok(Seq::empty())
    } else {
        match spec_render_param(reg, ps[0], current) {
            Err(e) => Err(e),
            Ok(h) => match spec_render_params_rest(reg, ps.drop_first(), current) {
                Err(e) => Err(e),
                Ok(t) => Ok(", "@ + h + t),
            },
        }
    }
}

/// Whether a recorded leading self-like receiver is omitted from the
/// emitted signature for this method kind.
pub open spec fn spec_drops_receiver(kind: MethodKind) -> bool {
    kind != MethodKind::Static
}

/// The signature parameters of a method: a recorded `self` or `cls`
/// first parameter of an instance-like method is omitted.
pub open spec fn spec_sig_params(ps: Seq<ParamV>, kind: MethodKind) -> Seq<ParamV> {
    if spec_drops_receiver(kind) && ps.len() > 0 && (ps[0].name == "self"@ || ps[0].name
        == "cls"@) {
        ps.drop_first()
    } else {
        ps
    }
}

/// The receiver spelled at the front of an emitted method signature.
pub open spec fn spec_receiver(kind: MethodKind, has_params: bool) -> Seq<char> {
    match kind {
        MethodKind::Static => Seq::<char>::empty(),
        MethodKind::Class => if has_params {
            "cls, "@
        } else {
            "cls"@
        },
        _ => if has_params {
            "self, "@
        } else {
            "self"@
        },
    }
}

/// One `def` line of a method, indented inside its class.
pub open spec fn spec_render_method(reg: RegistryV, m: MethodRecordV, current: Seq<char>) -> Result<
    Seq<char>,
    TypeIssueV,
> {
    let ps = spec_sig_params(m.params, m.kind);
    match spec_render_params(reg, ps, current) {
        Err(e) => Err(e),
        Ok(ptext) => match spec_render_type(reg, m.ret, current) {
            Err(e) => Err(e),
            Ok(rt) => Ok(
                "    def "@ + m.name + "("@ + spec_receiver(m.kind, ps.len() > 0) + ptext
                    + ") -> "@ + rt + ": ...\n"@,
            ),
        },
    }
}

/// One attribute line for a property accessor, typed by its return type.
pub open spec fn spec_render_getter(reg: RegistryV, m: MethodRecordV, current: Seq<char>) -> Result<
    Seq<char>,
    TypeIssueV,
> {
    match spec_render_type(reg, m.ret, current) {
        Err(e) => Err(e),
        Ok(rt) => Ok("    "@ + m.name + ": "@ + rt + "\n"@),
    }
}

/// One attribute line for a class field.
pub open spec fn spec_render_field(reg: RegistryV, fd: crate::records::FieldRecordV, current: Seq<
    char,
>) -> Result<Seq<char>, TypeIssueV> {
    match spec_render_type(reg, fd.ty, current) {
        Err(e) => Err(e),
        Ok(t) => Ok("    "@ + fd.name + ": "@ + t + "\n"@),
    }
}

/// The attribute lines of all fields, in registration order.
pub open spec fn spec_render_fields(
    reg: RegistryV,
    fs: Seq<crate::records::FieldRecordV>,
    current: Seq<char>,
) -> Result<Seq<char>, TypeIssueV>
    decreases fs,
{
    if fs.len() == 0 {
        Ok(Seq::empty())
    } else {
        match spec_render_field(reg, fs[0], current) {
            Err(e) => Err(e),
            Ok(h) => match spec_render_fields(reg, fs.drop_first(), current) {
                Err(e) => Err(e),
                Ok(t) => Ok(h + t),
            },
        }
    }
}

/// The attribute lines of the property accessors, in registration order.
pub open spec fn spec_render_getters(
    reg: RegistryV,
    ms: Seq<MethodRecordV>,
    current: Seq<char>,
) -> Result<Seq<char>, TypeIssueV>
    decreases ms,
{
    if ms.len() == 0 {
        Ok(Seq::empty())
    } else if ms[0].kind == MethodKind::Getter {
        match spec_render_getter(reg, ms[0], current) {
            Err(e) => Err(e),
            Ok(h) => match spec_render_getters(reg, ms.drop_first(), current) {
                Err(e) => Err(e),
                Ok(t) => Ok(h + t),
            },
        }
    } else {
        spec_render_getters(reg, ms.drop_first(), current)
    }
}

/// The `def` lines of the remaining methods, in registration order.
pub open spec fn spec_render_defs(
    reg: RegistryV,
    ms: Seq<MethodRecordV>,
    current: Seq<char>,
) -> Result<Seq<char>, TypeIssueV>
    decreases ms,
{
    if ms.len() == 0 {
        Ok(Seq::empty())
    } else if ms[0].kind != MethodKind::Getter {
        match spec_render_method(reg, ms[0], current) {
            Err(e) => Err(e),
            Ok(h) => match spec_render_defs(reg, ms.drop_first(), current) {
                Err(e) => Err(e),
                Ok(t) => Ok(h + t),
            },
        }
    } else {
        spec_render_defs(reg, ms.drop_first(), current)
    }
}

/// One constant line for an enum variant, typed by the enum itself,
/// under the scripting-visible alias when one was declared.
pub open spec fn spec_render_variant(v: crate::records::EnumVariantV, ename: Seq<char>) -> Seq<
    char,
> {
    let shown = match v.alias {
        Some(a) => a,
        None => v.native,
    };
    "    "@ + shown + ": "@ + ename + "\n"@
}

/// The constant lines of all variants, in registration order.
pub open spec fn spec_render_variants(vs: Seq<crate::records::EnumVariantV>, ename: Seq<char>) -> Seq<
    char,
>
    decreases vs,
{
    if vs.len() == 0 {
        Seq::empty()
    } else {
        spec_render_variant(vs[0], ename) + spec_render_variants(vs.drop_first(), ename)
    }
}

/// A comma-separated join of capability tags.
pub open spec fn spec_join_tags(ts: Seq<Seq<char>>) -> Seq<char>
    decreases ts,
{
    if ts.len() == 0 {
        Seq::empty()
    } else if ts.len() == 1 {
        ts[0]
    } else {
        ts[0] + ", "@ + spec_join_tags(ts.drop_first())
    }
}

/// The class header line, its capability tags shown as bases.
pub open spec fn spec_class_header(c: ClassDataV) -> Seq<char> {
    "class "@ + c.name + (if c.tags.len() == 0 {
        Seq::<char>::empty()
    } else {
        "("@ + spec_join_tags(c.tags) + ")"@
    }) + ":\n"@
}

/// One rendered top-level entry: its block of lines followed by a blank
/// separator line. Fields precede properties precede methods.
pub open spec fn spec_render_entry(reg: RegistryV, e: EntryV, current: Seq<char>) -> Result<
    Seq<char>,
    RenderErrorV,
>
{
    match e {
        EntryV::Class(c) => match spec_render_fields(reg, c.fields, current) {
            Err(i) => Err(spec_issue_in(c.name, i)),
            Ok(f) => match spec_render_getters(reg, c.methods, current) {
                Err(i) => Err(spec_issue_in(c.name, i)),
                Ok(g) => match spec_render_defs(reg, c.methods, current) {
                    Err(i) => Err(spec_issue_in(c.name, i)),
                    Ok(d) => Ok(
                        spec_class_header(c) + (if c.fields.len() == 0 && c.methods.len() == 0 {
                            "    ...\n"@
                        } else {
                            f + g + d
                        }) + "\n"@,
                    ),
                },
            },
        },
        EntryV::Enum(en) => Ok(
            "class "@ + en.name + ":\n"@ + (if en.variants.len() == 0 {
                "    ...\n"@
            } else {
                spec_render_variants(en.variants, en.name)
            }) + "\n"@,
        ),
        EntryV::Function(f) => match spec_render_params(reg, f.params, current) {
            Err(i) => Err(spec_issue_in(f.name, i)),
            Ok(ptext) => match spec_render_type(reg, f.ret, current) {
                Err(i) => Err(spec_issue_in(f.name, i)),
                Ok(rt) => Ok("def "@ + f.name + "("@ + ptext + ") -> "@ + rt + ": ...\n\n"@),
            },
        },
    }
}

/// The blocks of all entries of one module, in first-registration order;
/// the first failing declaration aborts the module.
pub open spec fn spec_render_entries(reg: RegistryV, es: Seq<EntryV>, current: Seq<char>) -> Result<
    Seq<char>,
    RenderErrorV,
>
    decreases es,
{
    if es.len() == 0 {
        Ok(Seq::empty())
    } else {
        match spec_render_entry(reg, es[0], current) {
            Err(e) => Err(e),
            Ok(h) => match spec_render_entries(reg, es.drop_first(), current) {
                Err(e) => Err(e),
                Ok(t) => Ok(h + t),
            },
        }
    }
}

/// The dangling-method warnings of one module: one per placeholder class
/// that was synthesized for methods whose class was never registered.
pub open spec fn spec_warnings(es: Seq<EntryV>) -> Seq<Seq<char>>
    decreases es,
{
    if es.len() == 0 {
        Seq::empty()
    } else {
        (match es[0] {
            EntryV::Class(c) => if c.synthesized {
                seq![c.native]
            } else {
                Seq::empty()
            },
            _ => Seq::empty(),
        }) + spec_warnings(es.drop_first())
    }
}


// ---------------------------------------------------------------------
// Executable rendering.
// ---------------------------------------------------------------------

/// An owned copy of a fixed piece of text.
fn lit(s: &str) -> (r: String)
    ensures
        r@ == s@,
{
    s.to_owned()
}

/// Attributes the issue to the declaration named `decl`.
fn issue_in(decl: String, e: TypeIssue) -> (r: RenderError)
    ensures
        r@ == spec_issue_in(decl@, e@),
{
    match e {
        TypeIssue::Missing { native } => RenderError::MissingType { decl, native },
        TypeIssue::Arity { base, got } => RenderError::UnsupportedArity { decl, base, got },
    }
}

/// Renders the parameters from position `start` on, comma-separated.
fn render_params(reg: &Registry, ps: &Vec<Param>, start: usize, current: &String) -> (r: Result<
    String,
    TypeIssue,
>)
    requires
        start <= ps@.len(),
    ensures
        match r {
            Ok(s) => spec_render_params(reg@, vviews(ps@).skip(start as int), current@) == Ok::<
                _,
                TypeIssueV,
            >(s@),
            Err(e) => spec_render_params(reg@, vviews(ps@).skip(start as int), current@) == Err::<
                Seq<char>,
                _,
            >(e@),
        },
{
    let ghost pvs = vviews(ps@);
    proof {
        lemma_vviews(ps@);
    }
    if start == ps.len() {
        proof {
            assert(pvs.skip(start as int) =~= Seq::<ParamV>::empty());
        }
        return Ok(String::new());
    }
    let mut out: String;
    proof {
        assert(pvs.skip(start as int)[0] == pvs[start as int]);
    }
    match render_param(reg, &ps[start], current) {
        Ok(h) => {
            out = h;
        },
        Err(e) => {
            return Err(e);
        },
    }
    let mut j: usize = start + 1;
    proof {
        assert(pvs.skip(start as int).drop_first() =~= pvs.skip(start as int + 1));
    }
    while j < ps.len()
        invariant
            start as int + 1 <= j as int <= ps@.len(),
            pvs == vviews(ps@),
            pvs.len() == ps@.len(),
            forall|l: int| 0 <= l < ps@.len() ==> #[trigger] pvs[l] == ps@[l]@,
            spec_render_params(reg@, pvs.skip(start as int), current@) == (
            match spec_render_params_rest(reg@, pvs.skip(j as int), current@) {
                Err(e) => Err::<Seq<char>, TypeIssueV>(e),
                Ok(t) => Ok(out@ + t),
            }),
        decreases ps@.len() - j,
    {
        proof {
            assert(pvs.skip(j as int)[0] == pvs[j as int]);
            assert(pvs.skip(j as int).drop_first() =~= pvs.skip(j as int + 1));
        }
        match render_param(reg, &ps[j], current) {
            Ok(h) => {
                let ghost old_out = out@;
                out.append(", ");
                out.append(h.as_str());
                proof {
                    match spec_render_params_rest(reg@, pvs.skip(j as int + 1), current@) {
                        Ok(t2) => {
                            assert(old_out + (", "@ + h@ + t2) =~= out@ + t2);
                        },
                        Err(_) => {},
                    }
                }
            },
            Err(e) => {
                return Err(e);
            },
        }
        j += 1;
    }
    proof {
        assert(pvs.skip(ps@.len() as int) =~= Seq::<ParamV>::empty());
    }
    Ok(out)
}

/// Renders one parameter.
fn render_param(reg: &Registry, p: &Param, current: &String) -> (r: Result<String, TypeIssue>)
    ensures
        match r {
            Ok(s) => spec_render_param(reg@, p@, current@) == Ok::<_, TypeIssueV>(s@),
            Err(e) => spec_render_param(reg@, p@, current@) == Err::<Seq<char>, _>(e@),
        },
{
    match render_type(reg, &p.ty, current) {
        Ok(t) => {
            let mut s = p.name.clone();
            s.append(": ");
            s.append(t.as_str());
            if p.has_default {
                s.append(" = ...");
            }
            Ok(s)
        },
        Err(e) => Err(e),
    }
}

/// Where a method's emitted parameters start: a recorded `self` or `cls`
/// receiver of an instance-like method is omitted.
fn sig_start(m: &MethodRecord) -> (r: usize)
    ensures
        r <= m.params@.len(),
        vviews(m.params@).skip(r as int) =~= spec_sig_params(m@.params, m@.kind),
{
    proof {
        lemma_vviews(m.params@);
        assert(vviews(m.params@).skip(0) =~= vviews(m.params@));
    }
    if m.kind == MethodKind::Static {
        return 0;
    }
    if m.params.len() == 0 {
        return 0;
    }
    let self_name = lit("self");
    let cls_name = lit("cls");
    if m.params[0].name == self_name || m.params[0].name == cls_name {
        proof {
            assert(vviews(m.params@)[0] == m.params@[0]@);
            assert(vviews(m.params@).skip(1) =~= vviews(m.params@).drop_first());
        }
        1
    } else {
        0
    }
}

/// Renders one method as its indented `def` line.
fn render_method(reg: &Registry, m: &MethodRecord, current: &String) -> (r: Result<
    String,
    TypeIssue,
>)
    ensures
        match r {
            Ok(s) => spec_render_method(reg@, m@, current@) == Ok::<_, TypeIssueV>(s@),
            Err(e) => spec_render_method(reg@, m@, current@) == Err::<Seq<char>, _>(e@),
        },
{
    let start = sig_start(m);
    let ghost ps = spec_sig_params(m@.params, m@.kind);
    match render_params(reg, &m.params, start, current) {
        Err(e) => Err(e),
        Ok(ptext) => match render_type(reg, &m.ret, current) {
            Err(e) => Err(e),
            Ok(rt) => {
                let has = start < m.params.len();
                proof {
                    lemma_vviews(m.params@);
                    assert(ps.len() == m.params@.len() - start as int);
                }
                let mut s = lit("    def ");
                s.append(m.name.as_str());
                s.append("(");
                match m.kind {
                    MethodKind::Static => {},
                    MethodKind::Class => {
                        if has {
                            s.append("cls, ");
                        } else {
                            s.append("cls");
                        }
                    },
                    _ => {
                        if has {
                            s.append("self, ");
                        } else {
                            s.append("self");
                        }
                    },
                }
                s.append(ptext.as_str());
                s.append(") -> ");
                s.append(rt.as_str());
                s.append(": ...\n");
                Ok(s)
            },
        },
    }
}

/// Renders one property accessor as an attribute line.
fn render_getter(reg: &Registry, m: &MethodRecord, current: &String) -> (r: Result<
    String,
    TypeIssue,
>)
    ensures
        match r {
            Ok(s) => spec_render_getter(reg@, m@, current@) == Ok::<_, TypeIssueV>(s@),
            Err(e) => spec_render_getter(reg@, m@, current@) == Err::<Seq<char>, _>(e@),
        },
{
    match render_type(reg, &m.ret, current) {
        Err(e) => Err(e),
        Ok(rt) => {
            let mut s = lit("    ");
            s.append(m.name.as_str());
            s.append(": ");
            s.append(rt.as_str());
            s.append("\n");
            Ok(s)
        },
    }
}

/// Renders one field as an attribute line.
fn render_field(reg: &Registry, fd: &crate::records::FieldRecord, current: &String) -> (r: Result<
    String,
    TypeIssue,
>)
    ensures
        match r {
            Ok(s) => spec_render_field(reg@, fd@, current@) == Ok::<_, TypeIssueV>(s@),
            Err(e) => spec_render_field(reg@, fd@, current@) == Err::<Seq<char>, _>(e@),
        },
{
    match render_type(reg, &fd.ty, current) {
        Err(e) => Err(e),
        Ok(t) => {
            let mut s = lit("    ");
            s.append(fd.name.as_str());
            s.append(": ");
            s.append(t.as_str());
            s.append("\n");
            Ok(s)
        },
    }
}


/// Renders one class block: header, fields, property attributes, method
/// definitions, and a trailing blank line.
fn render_class(reg: &Registry, c: &crate::records::ClassData, current: &String) -> (r: Result<
    String,
    RenderError,
>)
    ensures
        match r {
            Ok(s) => spec_render_entry(reg@, EntryV::Class(c@), current@) == Ok::<
                _,
                RenderErrorV,
            >(s@),
            Err(e) => spec_render_entry(reg@, EntryV::Class(c@), current@) == Err::<
                Seq<char>,
                _,
            >(e@),
        },
{
    let ghost cv = c@;
    let ghost fvs = vviews(c.fields@);
    let ghost mvs = vviews(c.methods@);
    proof {
        lemma_vviews(c.fields@);
        lemma_vviews(c.methods@);
        lemma_vviews(c.tags@);
        assert(fvs.skip(0) =~= fvs);
        assert(mvs.skip(0) =~= mvs);
    }
    // fields
    let mut ftext = String::new();
    let mut i: usize = 0;
    while i < c.fields.len()
        invariant
            i <= c.fields@.len(),
            fvs == vviews(c.fields@),
            fvs.len() == c.fields@.len(),
            forall|l: int| 0 <= l < c.fields@.len() ==> #[trigger] fvs[l] == c.fields@[l]@,
            spec_render_fields(reg@, fvs, current@) == (match spec_render_fields(
                reg@,
                fvs.skip(i as int),
                current@,
            ) {
                Err(e) => Err::<Seq<char>, TypeIssueV>(e),
                Ok(t) => Ok(ftext@ + t),
            }),
        decreases c.fields@.len() - i,
    {
        proof {
            assert(fvs.skip(i as int)[0] == fvs[i as int]);
            assert(fvs.skip(i as int).drop_first() =~= fvs.skip(i as int + 1));
        }
        match render_field(reg, &c.fields[i], current) {
            Ok(h) => {
                let ghost old_t = ftext@;
                ftext.append(h.as_str());
                proof {
                    match spec_render_fields(reg@, fvs.skip(i as int + 1), current@) {
                        Ok(t2) => {
                            assert(old_t + (h@ + t2) =~= ftext@ + t2);
                        },
                        Err(_) => {},
                    }
                }
            },
            Err(e) => {
                return Err(issue_in(c.name.clone(), e));
            },
        }
        i += 1;
    }
    proof {
        assert(fvs.skip(c.fields@.len() as int) =~= Seq::<crate::records::FieldRecordV>::empty());
    }
    // property attributes
    let mut gtext = String::new();
    let mut i: usize = 0;
    while i < c.methods.len()
        invariant
            i <= c.methods@.len(),
            mvs == vviews(c.methods@),
            mvs.len() == c.methods@.len(),
            forall|l: int| 0 <= l < c.methods@.len() ==> #[trigger] mvs[l] == c.methods@[l]@,
            fvs == vviews(c.fields@),
            spec_render_fields(reg@, fvs, current@) == Ok::<_, TypeIssueV>(ftext@),
            spec_render_getters(reg@, mvs, current@) == (match spec_render_getters(
                reg@,
                mvs.skip(i as int),
                current@,
            ) {
                Err(e) => Err::<Seq<char>, TypeIssueV>(e),
                Ok(t) => Ok(gtext@ + t),
            }),
        decreases c.methods@.len() - i,
    {
        proof {
            assert(mvs.skip(i as int)[0] == mvs[i as int]);
            assert(mvs.skip(i as int).drop_first() =~= mvs.skip(i as int + 1));
        }
        if c.methods[i].kind == MethodKind::Getter {
            match render_getter(reg, &c.methods[i], current) {
                Ok(h) => {
                    let ghost old_t = gtext@;
                    gtext.append(h.as_str());
                    proof {
                        match spec_render_getters(reg@, mvs.skip(i as int + 1), current@) {
                            Ok(t2) => {
                                assert(old_t + (h@ + t2) =~= gtext@ + t2);
                            },
                            Err(_) => {},
                        }
                    }
                },
                Err(e) => {
                    return Err(issue_in(c.name.clone(), e));
                },
            }
        }
        i += 1;
    }
    proof {
        assert(mvs.skip(c.methods@.len() as int) =~= Seq::<MethodRecordV>::empty());
    }
    // method definitions
    let mut dtext = String::new();
    let mut i: usize = 0;
    while i < c.methods.len()
        invariant
            i <= c.methods@.len(),
            mvs == vviews(c.methods@),
            mvs.len() == c.methods@.len(),
            forall|l: int| 0 <= l < c.methods@.len() ==> #[trigger] mvs[l] == c.methods@[l]@,
            fvs == vviews(c.fields@),
            spec_render_fields(reg@, fvs, current@) == Ok::<_, TypeIssueV>(ftext@),
            spec_render_getters(reg@, mvs, current@) == Ok::<_, TypeIssueV>(gtext@),
            spec_render_defs(reg@, mvs, current@) == (match spec_render_defs(
                reg@,
                mvs.skip(i as int),
                current@,
            ) {
                Err(e) => Err::<Seq<char>, TypeIssueV>(e),
                Ok(t) => Ok(dtext@ + t),
            }),
        decreases c.methods@.len() - i,
    {
        proof {
            assert(mvs.skip(i as int)[0] == mvs[i as int]);
            assert(mvs.skip(i as int).drop_first() =~= mvs.skip(i as int + 1));
        }
        if !(c.methods[i].kind == MethodKind::Getter) {
            match render_method(reg, &c.methods[i], current) {
                Ok(h) => {
                    let ghost old_t = dtext@;
                    dtext.append(h.as_str());
                    proof {
                        match spec_render_defs(reg@, mvs.skip(i as int + 1), current@) {
                            Ok(t2) => {
                                assert(old_t + (h@ + t2) =~= dtext@ + t2);
                            },
                            Err(_) => {},
                        }
                    }
                },
                Err(e) => {
                    return Err(issue_in(c.name.clone(), e));
                },
            }
        }
        i += 1;
    }
    // header with capability tags as bases
    let mut s = lit("class ");
    s.append(c.name.as_str());
    if c.tags.len() > 0 {
        s.append("(");
        let ghost tvs = vviews(c.tags@);
        let mut k: usize = 1;
        let ghost joined = spec_join_tags(tvs);
        let mut tags_text = c.tags[0].clone();
        proof {
            assert(tvs[0] == c.tags@[0]@);
        }
        while k < c.tags.len()
            invariant
                1 <= k <= c.tags@.len(),
                tvs == vviews(c.tags@),
                tvs.len() == c.tags@.len(),
                forall|l: int| 0 <= l < c.tags@.len() ==> #[trigger] tvs[l] == c.tags@[l]@,
                joined == spec_join_tags(tvs),
                k < c.tags@.len() ==> joined == tags_text@ + ", "@ + spec_join_tags(
                    tvs.skip(k as int),
                ),
                k == c.tags@.len() ==> joined == tags_text@,
            decreases c.tags@.len() - k,
        {
            proof {
                assert(tvs.skip(k as int)[0] == tvs[k as int]);
                assert(tvs.skip(k as int).drop_first() =~= tvs.skip(k as int + 1));
            }
            let ghost old_t = tags_text@;
            tags_text.append(", ");
            tags_text.append(c.tags[k].as_str());
            proof {
                if k + 1 < c.tags@.len() {
                    assert(old_t + ", "@ + (tvs[k as int] + ", "@ + spec_join_tags(
                        tvs.skip(k as int + 1),
                    )) =~= tags_text@ + ", "@ + spec_join_tags(tvs.skip(k as int + 1)));
                } else {
                    assert(old_t + ", "@ + tvs[k as int] =~= tags_text@);
                }
            }
            k += 1;
        }
        proof {
            if c.tags@.len() == 1 {
                assert(joined == tvs[0]);
            }
        }
        s.append(tags_text.as_str());
        s.append(")");
    }
    s.append(":\n");
    proof {
        assert(s@ =~= spec_class_header(cv));
    }
    if c.fields.len() == 0 && c.methods.len() == 0 {
        s.append("    ...\n");
    } else {
        s.append(ftext.as_str());
        s.append(gtext.as_str());
        s.append(dtext.as_str());
    }
    s.append("\n");
    proof {
        match spec_render_entry(reg@, EntryV::Class(cv), current@) {
            Ok(t) => {
                assert(s@ =~= t);
            },
            Err(_) => {},
        }
    }
    Ok(s)
}

/// Renders one enum block: a class header and one typed constant per
/// variant.
fn render_enum(en: &crate::records::EnumData) -> (r: String)
    ensures
        forall|reg: RegistryV, current: Seq<char>|
            spec_render_entry(reg, EntryV::Enum(en@), current) == Ok::<_, RenderErrorV>(r@),
{
    let ghost vvs = vviews(en.variants@);
    proof {
        lemma_vviews(en.variants@);
        assert(vvs.skip(0) =~= vvs);
    }
    let mut body = String::new();
    let mut i: usize = 0;
    while i < en.variants.len()
        invariant
            i <= en.variants@.len(),
            vvs == vviews(en.variants@),
            vvs.len() == en.variants@.len(),
            forall|l: int| 0 <= l < en.variants@.len() ==> #[trigger] vvs[l] == en.variants@[l]@,
            spec_render_variants(vvs, en@.name) == body@ + spec_render_variants(
                vvs.skip(i as int),
                en@.name,
            ),
        decreases en.variants@.len() - i,
    {
        proof {
            assert(vvs.skip(i as int)[0] == vvs[i as int]);
            assert(vvs.skip(i as int).drop_first() =~= vvs.skip(i as int + 1));
        }
        let v = &en.variants[i];
        let ghost old_b = body@;
        body.append("    ");
        match &v.alias {
            Some(a) => body.append(a.as_str()),
            None => body.append(v.native.as_str()),
        }
        body.append(": ");
        body.append(en.name.as_str());
        body.append("\n");
        proof {
            assert(old_b + spec_render_variant(vvs[i as int], en@.name) =~= body@);
            assert(old_b + (spec_render_variant(vvs[i as int], en@.name) + spec_render_variants(
                vvs.skip(i as int + 1),
                en@.name,
            )) =~= body@ + spec_render_variants(vvs.skip(i as int + 1), en@.name));
        }
        i += 1;
    }
    proof {
        assert(vvs.skip(en.variants@.len() as int) =~= Seq::<
            crate::records::EnumVariantV,
        >::empty());
    }
    let mut s = lit("class ");
    s.append(en.name.as_str());
    s.append(":\n");
    if en.variants.len() == 0 {
        s.append("    ...\n");
    } else {
        s.append(body.as_str());
    }
    s.append("\n");
    proof {
        assert forall|reg: RegistryV, current: Seq<char>|
            spec_render_entry(reg, EntryV::Enum(en@), current) == Ok::<_, RenderErrorV>(s@) by {
            match spec_render_entry(reg, EntryV::Enum(en@), current) {
                Ok(t) => {
                    assert(s@ =~= t);
                },
                Err(_) => {},
            }
        }
    }
    s
}

/// Renders one free function as its `def` line.
fn render_function(reg: &Registry, f: &crate::records::FunctionData, current: &String) -> (r:
    Result<String, RenderError>)
    ensures
        match r {
            Ok(s) => spec_render_entry(reg@, EntryV::Function(f@), current@) == Ok::<
                _,
                RenderErrorV,
            >(s@),
            Err(e) => spec_render_entry(reg@, EntryV::Function(f@), current@) == Err::<
                Seq<char>,
                _,
            >(e@),
        },
{
    proof {
        lemma_vviews(f.params@);
        assert(vviews(f.params@).skip(0) =~= vviews(f.params@));
    }
    match render_params(reg, &f.params, 0, current) {
        Err(e) => Err(issue_in(f.name.clone(), e)),
        Ok(ptext) => match render_type(reg, &f.ret, current) {
            Err(e) => Err(issue_in(f.name.clone(), e)),
            Ok(rt) => {
                let mut s = lit("def ");
                s.append(f.name.as_str());
                s.append("(");
                s.append(ptext.as_str());
                s.append(") -> ");
                s.append(rt.as_str());
                s.append(": ...\n\n");
                proof {
                    match spec_render_entry(reg@, EntryV::Function(f@), current@) {
                        Ok(t) => {
                            assert(s@ =~= t);
                        },
                        Err(_) => {},
                    }
                }
                Ok(s)
            },
        },
    }
}

/// Renders one top-level entry.
fn render_entry(reg: &Registry, e: &crate::records::Entry, current: &String) -> (r: Result<
    String,
    RenderError,
>)
    ensures
        match r {
            Ok(s) => spec_render_entry(reg@, e@, current@) == Ok::<_, RenderErrorV>(s@),
            Err(err) => spec_render_entry(reg@, e@, current@) == Err::<Seq<char>, _>(err@),
        },
{
    match e {
        crate::records::Entry::Class(c) => render_class(reg, c, current),
        crate::records::Entry::Enum(en) => Ok(render_enum(en)),
        crate::records::Entry::Function(f) => render_function(reg, f, current),
    }
}


// ---------------------------------------------------------------------
// The import block: the modules that the rendered annotations refer to,
// deduplicated and sorted by their byte order.
// ---------------------------------------------------------------------

/// The UTF-8 bytes of a piece of text.
pub open spec fn sbytes(s: Seq<char>) -> Seq<u8> {
    vstd::utf8::encode_utf8(s)
}

/// Byte-lexicographic order on texts.
pub open spec fn bytes_lt(a: Seq<u8>, b: Seq<u8>) -> bool
    decreases a.len(),
{
    if b.len() == 0 {
        false
    } else if a.len() == 0 {
        true
    } else if a[0] < b[0] {
        true
    } else if a[0] == b[0] {
        bytes_lt(a.drop_first(), b.drop_first())
    } else {
        false
    }
}

/// Whether `a` sorts strictly before `b`, by UTF-8 bytes.
fn str_lt(a: &String, b: &String) -> (r: bool)
    ensures
        r == bytes_lt(sbytes(a@), sbytes(b@)),
{
    let av = a.as_str().as_bytes_vec();
    let bv = b.as_str().as_bytes_vec();
    let ghost sa = sbytes(a@);
    let ghost sb = sbytes(b@);
    proof {
        assert(sa.skip(0) =~= sa);
        assert(sb.skip(0) =~= sb);
    }
    let mut i: usize = 0;
    loop
        invariant
            sa == sbytes(a@),
            sb == sbytes(b@),
            av@ == sa,
            bv@ == sb,
            i <= av@.len(),
            i <= bv@.len(),
            bytes_lt(sa, sb) == bytes_lt(sa.skip(i as int), sb.skip(i as int)),
        decreases av@.len() - i,
    {
        proof {
            if i < av@.len() {
                assert(sa.skip(i as int)[0] == sa[i as int]);
                assert(sa.skip(i as int).drop_first() =~= sa.skip(i as int + 1));
            }
            if i < bv@.len() {
                assert(sb.skip(i as int)[0] == sb[i as int]);
                assert(sb.skip(i as int).drop_first() =~= sb.skip(i as int + 1));
            }
        }
        if i == av.len() {
            return i < bv.len();
        }
        if i == bv.len() {
            return false;
        }
        if av[i] < bv[i] {
            return true;
        }
        if av[i] > bv[i] {
            return false;
        }
        i += 1;
    }
}

/// Inserts a module path into a sorted import list, keeping it sorted
/// and free of duplicates.
pub open spec fn spec_add_import(s: Seq<Seq<char>>, x: Seq<char>) -> Seq<Seq<char>>
    decreases s.len(),
{
    if s.len() == 0 {
        seq![x]
    } else if s[0] == x {
        s
    } else if bytes_lt(sbytes(x), sbytes(s[0])) {
        seq![x] + s
    } else {
        seq![s[0]] + spec_add_import(s.drop_first(), x)
    }
}

/// An insertion position not yet reached leaves the prefix untouched.
proof fn lemma_add_import_skip(s: Seq<Seq<char>>, x: Seq<char>, i: int)
    requires
        0 <= i <= s.len(),
        forall|j: int| 0 <= j < i ==> s[j] != x && !bytes_lt(sbytes(x), sbytes(s[j])),
    ensures
        spec_add_import(s, x) =~= s.take(i) + spec_add_import(s.skip(i), x),
    decreases i,
{
    if i > 0 {
        let d = s.drop_first();
        assert forall|j: int| 0 <= j < i - 1 implies d[j] != x && !bytes_lt(
            sbytes(x),
            sbytes(d[j]),
        ) by {
            assert(d[j] == s[j + 1]);
        }
        lemma_add_import_skip(d, x, i - 1);
        assert(d.take(i - 1) =~= s.take(i).drop_first());
        assert(d.skip(i - 1) =~= s.skip(i));
        assert(spec_add_import(s, x) == seq![s[0]] + spec_add_import(d, x));
    } else {
        assert(s.take(0) =~= Seq::<Seq<char>>::empty());
        assert(s.skip(0) =~= s);
    }
}

/// Inserts one module path, keeping the list sorted and duplicate-free.
fn add_import(v: &mut Vec<String>, x: String)
    ensures
        vviews(final(v)@) == spec_add_import(vviews(old(v)@), x@),
{
    let ghost s0 = vviews(v@);
    proof {
        lemma_vviews(v@);
    }
    let mut i: usize = 0;
    while i < v.len()
        invariant
            v@ == old(v)@,
            i <= v@.len(),
            s0 == vviews(v@),
            s0.len() == v@.len(),
            forall|l: int| 0 <= l < v@.len() ==> #[trigger] s0[l] == v@[l]@,
            forall|j: int| 0 <= j < i ==> s0[j] != x@ && !bytes_lt(sbytes(x@), sbytes(s0[j])),
        decreases v@.len() - i,
    {
        if v[i] == x {
            proof {
                lemma_add_import_skip(s0, x@, i as int);
                assert(s0.skip(i as int)[0] == s0[i as int]);
                assert(spec_add_import(s0.skip(i as int), x@) == s0.skip(i as int));
                assert(s0.take(i as int) + s0.skip(i as int) =~= s0);
            }
            return ;
        }
        if str_lt(&x, &v[i]) {
            let ghost pre = v@;
            v.insert(i, x);
            proof {
                lemma_add_import_skip(s0, x@, i as int);
                assert(s0.skip(i as int)[0] == s0[i as int]);
                assert(spec_add_import(s0.skip(i as int), x@) == seq![x@] + s0.skip(i as int));
                lemma_vviews(v@);
                assert(vviews(v@) =~= s0.take(i as int) + (seq![x@] + s0.skip(i as int)));
            }
            return ;
        }
        i += 1;
    }
    let ghost pre = v@;
    v.push(x);
    proof {
        lemma_add_import_skip(s0, x@, s0.len() as int);
        assert(s0.skip(s0.len() as int) =~= Seq::<Seq<char>>::empty());
        assert(spec_add_import(Seq::<Seq<char>>::empty(), x@) =~= seq![x@]);
        lemma_vviews_push(pre, v@[v@.len() - 1]);
        assert(vviews(v@) =~= s0.take(s0.len() as int) + seq![x@]);
    }
}

/// The imports one type expression contributes: the modules of the named
/// types it mentions, other than the module being rendered.
pub open spec fn spec_collect_type(
    reg: RegistryV,
    t: TypeExprV,
    current: Seq<char>,
    acc: Seq<Seq<char>>,
) -> Seq<Seq<char>>
    decreases t,
{
    match t {
        TypeExprV::Named { module, name } => if module == current {
            acc
        } else {
            spec_add_import(acc, module)
        },
        TypeExprV::Generic { base, args } => spec_collect_list(reg, args, current, acc),
        TypeExprV::Union { members } => spec_collect_list(reg, members, current, acc),
        TypeExprV::Optional { inner } => spec_collect_type(reg, *inner, current, acc),
        TypeExprV::Unresolved { native } => match spec_resolve(reg, native) {
            Some(mn) => if mn.0 == current {
                acc
            } else {
                spec_add_import(acc, mn.0)
            },
            None => acc,
        },
        _ => acc,
    }
}

/// The imports a list of type expressions contributes, left to right.
pub open spec fn spec_collect_list(
    reg: RegistryV,
    ts: Seq<TypeExprV>,
    current: Seq<char>,
    acc: Seq<Seq<char>>,
) -> Seq<Seq<char>>
    decreases ts,
{
    if ts.len() == 0 {
        acc
    } else {
        spec_collect_list(reg, ts.drop_first(), current, spec_collect_type(reg, ts[0], current, acc))
    }
}

/// Collects the imports of one type expression into `acc`.
fn collect_type(reg: &Registry, t: &TypeExpr, current: &String, acc: &mut Vec<String>)
    ensures
        vviews(final(acc)@) == spec_collect_type(reg@, t@, current@, vviews(old(acc)@)),
    decreases t,
{
    match t {
        TypeExpr::Named { module, name } => {
            if !(*module == *current) {
                add_import(acc, module.clone());
            }
        },
        TypeExpr::Generic { base, args } => {
            collect_list(reg, args, current, acc);
        },
        TypeExpr::Union { members } => {
            collect_list(reg, members, current, acc);
        },
        TypeExpr::Optional { inner } => {
            collect_type(reg, inner, current, acc);
        },
        TypeExpr::Unresolved { native } => {
            match reg.resolve_named(native) {
                Some(mn) => {
                    if !(mn.0 == *current) {
                        add_import(acc, mn.0);
                    }
                },
                None => {},
            }
        },
        _ => {},
    }
}

/// Collects the imports of a list of type expressions into `acc`.
fn collect_list(reg: &Registry, ts: &Vec<TypeExpr>, current: &String, acc: &mut Vec<String>)
    ensures
        vviews(final(acc)@) == spec_collect_list(reg@, views_of(ts@), current@, vviews(old(acc)@)),
    decreases ts,
{
    let ghost tvs = views_of(ts@);
    let ghost acc0 = vviews(acc@);
    proof {
        crate::type_expr::lemma_views_of(ts@);
        assert(tvs.skip(0) =~= tvs);
    }
    let mut i: usize = 0;
    while i < ts.len()
        invariant
            i <= ts@.len(),
            tvs == views_of(ts@),
            tvs.len() == ts@.len(),
            forall|l: int| 0 <= l < ts@.len() ==> #[trigger] tvs[l] == ts@[l]@,
            spec_collect_list(reg@, tvs, current@, acc0) == spec_collect_list(
                reg@,
                tvs.skip(i as int),
                current@,
                vviews(acc@),
            ),
        decreases ts@.len() - i,
    {
        proof {
            assert(tvs.skip(i as int)[0] == tvs[i as int]);
            assert(tvs.skip(i as int).drop_first() =~= tvs.skip(i as int + 1));
        }
        collect_type(reg, &ts[i], current, acc);
        i += 1;
    }
    proof {
        assert(tvs.skip(ts@.len() as int) =~= Seq::<TypeExprV>::empty());
    }
}


/// The imports a parameter list contributes.
pub open spec fn spec_collect_params(
    reg: RegistryV,
    ps: Seq<ParamV>,
    current: Seq<char>,
    acc: Seq<Seq<char>>,
) -> Seq<Seq<char>>
    decreases ps,
{
    if ps.len() == 0 {
        acc
    } else {
        spec_collect_params(
            reg,
            ps.drop_first(),
            current,
            spec_collect_type(reg, ps[0].ty, current, acc),
        )
    }
}

/// The imports a field list contributes.
pub open spec fn spec_collect_fields(
    reg: RegistryV,
    fs: Seq<crate::records::FieldRecordV>,
    current: Seq<char>,
    acc: Seq<Seq<char>>,
) -> Seq<Seq<char>>
    decreases fs,
{
    if fs.len() == 0 {
        acc
    } else {
        spec_collect_fields(
            reg,
            fs.drop_first(),
            current,
            spec_collect_type(reg, fs[0].ty, current, acc),
        )
    }
}

/// The imports a method list contributes: each method's parameters, then
/// its return type.
pub open spec fn spec_collect_methods(
    reg: RegistryV,
    ms: Seq<MethodRecordV>,
    current: Seq<char>,
    acc: Seq<Seq<char>>,
) -> Seq<Seq<char>>
    decreases ms,
{
    if ms.len() == 0 {
        acc
    } else {
        spec_collect_methods(
            reg,
            ms.drop_first(),
            current,
            spec_collect_type(
                reg,
                ms[0].ret,
                current,
                spec_collect_params(reg, ms[0].params, current, acc),
            ),
        )
    }
}

/// The imports one entry contributes.
pub open spec fn spec_collect_entry(
    reg: RegistryV,
    e: EntryV,
    current: Seq<char>,
    acc: Seq<Seq<char>>,
) -> Seq<Seq<char>> {
    match e {
        EntryV::Class(c) => spec_collect_methods(
            reg,
            c.methods,
            current,
            spec_collect_fields(reg, c.fields, current, acc),
        ),
        EntryV::Enum(_) => acc,
        EntryV::Function(f) => spec_collect_type(
            reg,
            f.ret,
            current,
            spec_collect_params(reg, f.params, current, acc),
        ),
    }
}

/// The imports of a whole module bucket.
pub open spec fn spec_collect_entries(
    reg: RegistryV,
    es: Seq<EntryV>,
    current: Seq<char>,
    acc: Seq<Seq<char>>,
) -> Seq<Seq<char>>
    decreases es,
{
    if es.len() == 0 {
        acc
    } else {
        spec_collect_entries(
            reg,
            es.drop_first(),
            current,
            spec_collect_entry(reg, es[0], current, acc),
        )
    }
}

/// Collects the imports of a parameter list.
fn collect_params(reg: &Registry, ps: &Vec<Param>, current: &String, acc: &mut Vec<String>)
    ensures
        vviews(final(acc)@) == spec_collect_params(reg@, vviews(ps@), current@, vviews(old(acc)@)),
{
    let ghost pvs = vviews(ps@);
    let ghost acc0 = vviews(acc@);
    proof {
        lemma_vviews(ps@);
        assert(pvs.skip(0) =~= pvs);
    }
    let mut i: usize = 0;
    while i < ps.len()
        invariant
            i <= ps@.len(),
            pvs == vviews(ps@),
            pvs.len() == ps@.len(),
            forall|l: int| 0 <= l < ps@.len() ==> #[trigger] pvs[l] == ps@[l]@,
            spec_collect_params(reg@, pvs, current@, acc0) == spec_collect_params(
                reg@,
                pvs.skip(i as int),
                current@,
                vviews(acc@),
            ),
        decreases ps@.len() - i,
    {
        proof {
            assert(pvs.skip(i as int)[0] == pvs[i as int]);
            assert(pvs.skip(i as int).drop_first() =~= pvs.skip(i as int + 1));
        }
        collect_type(reg, &ps[i].ty, current, acc);
        i += 1;
    }
    proof {
        assert(pvs.skip(ps@.len() as int) =~= Seq::<ParamV>::empty());
    }
}

/// Collects the imports of a field list.
fn collect_fields(
    reg: &Registry,
    fs: &Vec<crate::records::FieldRecord>,
    current: &String,
    acc: &mut Vec<String>,
)
    ensures
        vviews(final(acc)@) == spec_collect_fields(reg@, vviews(fs@), current@, vviews(old(acc)@)),
{
    let ghost fvs = vviews(fs@);
    let ghost acc0 = vviews(acc@);
    proof {
        lemma_vviews(fs@);
        assert(fvs.skip(0) =~= fvs);
    }
    let mut i: usize = 0;
    while i < fs.len()
        invariant
            i <= fs@.len(),
            fvs == vviews(fs@),
            fvs.len() == fs@.len(),
            forall|l: int| 0 <= l < fs@.len() ==> #[trigger] fvs[l] == fs@[l]@,
            spec_collect_fields(reg@, fvs, current@, acc0) == spec_collect_fields(
                reg@,
                fvs.skip(i as int),
                current@,
                vviews(acc@),
            ),
        decreases fs@.len() - i,
    {
        proof {
            assert(fvs.skip(i as int)[0] == fvs[i as int]);
            assert(fvs.skip(i as int).drop_first() =~= fvs.skip(i as int + 1));
        }
        collect_type(reg, &fs[i].ty, current, acc);
        i += 1;
    }
    proof {
        assert(fvs.skip(fs@.len() as int) =~= Seq::<crate::records::FieldRecordV>::empty());
    }
}

/// Collects the imports of a method list.
fn collect_methods(reg: &Registry, ms: &Vec<MethodRecord>, current: &String, acc: &mut Vec<String>)
    ensures
        vviews(final(acc)@) == spec_collect_methods(reg@, vviews(ms@), current@, vviews(old(acc)@)),
{
    let ghost mvs = vviews(ms@);
    let ghost acc0 = vviews(acc@);
    proof {
        lemma_vviews(ms@);
        assert(mvs.skip(0) =~= mvs);
    }
    let mut i: usize = 0;
    while i < ms.len()
        invariant
            i <= ms@.len(),
            mvs == vviews(ms@),
            mvs.len() == ms@.len(),
            forall|l: int| 0 <= l < ms@.len() ==> #[trigger] mvs[l] == ms@[l]@,
            spec_collect_methods(reg@, mvs, current@, acc0) == spec_collect_methods(
                reg@,
                mvs.skip(i as int),
                current@,
                vviews(acc@),
            ),
        decreases ms@.len() - i,
    {
        proof {
            assert(mvs.skip(i as int)[0] == mvs[i as int]);
            assert(mvs.skip(i as int).drop_first() =~= mvs.skip(i as int + 1));
        }
        collect_params(reg, &ms[i].params, current, acc);
        collect_type(reg, &ms[i].ret, current, acc);
        i += 1;
    }
    proof {
        assert(mvs.skip(ms@.len() as int) =~= Seq::<MethodRecordV>::empty());
    }
}

/// Collects the imports of one entry.
fn collect_entry(reg: &Registry, e: &crate::records::Entry, current: &String, acc: &mut Vec<String>)
    ensures
        vviews(final(acc)@) == spec_collect_entry(reg@, e@, current@, vviews(old(acc)@)),
{
    match e {
        crate::records::Entry::Class(c) => {
            collect_fields(reg, &c.fields, current, acc);
            collect_methods(reg, &c.methods, current, acc);
        },
        crate::records::Entry::Enum(_) => {},
        crate::records::Entry::Function(f) => {
            collect_params(reg, &f.params, current, acc);
            collect_type(reg, &f.ret, current, acc);
        },
    }
}

/// The import block: one line per collected module, and a blank line
/// after the block when it is not empty.
pub open spec fn spec_imports_lines(ms: Seq<Seq<char>>) -> Seq<char>
    decreases ms,
{
    if ms.len() == 0 {
        Seq::empty()
    } else {
        "import "@ + ms[0] + "\n"@ + spec_imports_lines(ms.drop_first())
    }
}

/// The import block of one module's collected imports.
pub open spec fn spec_imports_text(ms: Seq<Seq<char>>) -> Seq<char> {
    if ms.len() == 0 {
        Seq::empty()
    } else {
        spec_imports_lines(ms) + "\n"@
    }
}


// ---------------------------------------------------------------------
// Rendering one module.
// ---------------------------------------------------------------------

/// The stub document of one module: its import block, then its entries
/// in first-registration order. A module that holds no records renders
/// as the empty document.
pub open spec fn spec_render_module(reg: RegistryV, module: Seq<char>) -> Result<
    Seq<char>,
    RenderErrorV,
> {
    let i = key_idx(reg.modules, bucket_keyf(), module);
    if i < 0 {
        Ok(Seq::empty())
    } else {
        let es = reg.modules[i].entries;
        match spec_render_entries(reg, es, module) {
            Err(e) => Err(e),
            Ok(body) => Ok(
                spec_imports_text(spec_collect_entries(reg, es, module, Seq::empty())) + body,
            ),
        }
    }
}

/// The dangling-method warnings of one module.
pub open spec fn spec_module_warnings(reg: RegistryV, module: Seq<char>) -> Seq<Seq<char>> {
    let i = key_idx(reg.modules, bucket_keyf(), module);
    if i < 0 {
        Seq::empty()
    } else {
        spec_warnings(reg.modules[i].entries)
    }
}

/// Renders one module's stub document. The result is a pure function of
/// the registry's state: rendering the same unmodified registry twice
/// yields byte-identical text. A hard error aborts the module and names
/// the declaration that raised it; dangling-method warnings come back
/// beside the text and abort nothing.
pub fn render(reg: &Registry, module: &String) -> (r: Result<Rendered, RenderError>)
    ensures
        match r {
            Ok(out) => spec_render_module(reg@, module@) == Ok::<_, RenderErrorV>(out.text@)
                && vviews(out.warnings@) == spec_module_warnings(reg@, module@),
            Err(e) => spec_render_module(reg@, module@) == Err::<Seq<char>, _>(e@),
        },
{
    let idx = match reg.bucket_index(module) {
        Some(i) => i,
        None => {
            return Ok(Rendered { text: String::new(), warnings: Vec::new() });
        },
    };
    let b = &reg.modules[idx];
    let ghost bv = reg@.modules[idx as int];
    let ghost evs = bv.entries;
    proof {
        lemma_vviews(reg.modules@);
        assert(reg@.modules[idx as int] == reg.modules@[idx as int]@);
        lemma_vviews(b.entries@);
        assert(evs.skip(0) =~= evs);
    }
    // entry blocks
    let mut body = String::new();
    let mut i: usize = 0;
    while i < b.entries.len()
        invariant
            i <= b.entries@.len(),
            bv == b@,
            bv == reg@.modules[idx as int],
            (idx as int) < reg@.modules.len(),
            key_idx(reg@.modules, bucket_keyf(), module@) == idx as int,
            evs == bv.entries,
            evs.len() == b.entries@.len(),
            forall|l: int| 0 <= l < b.entries@.len() ==> #[trigger] evs[l] == b.entries@[l]@,
            spec_render_entries(reg@, evs, module@) == (match spec_render_entries(
                reg@,
                evs.skip(i as int),
                module@,
            ) {
                Err(e) => Err::<Seq<char>, RenderErrorV>(e),
                Ok(t) => Ok(body@ + t),
            }),
        decreases b.entries@.len() - i,
    {
        proof {
            assert(evs.skip(i as int)[0] == evs[i as int]);
            assert(evs.skip(i as int).drop_first() =~= evs.skip(i as int + 1));
        }
        match render_entry(reg, &b.entries[i], module) {
            Ok(h) => {
                let ghost old_b = body@;
                body.append(h.as_str());
                proof {
                    match spec_render_entries(reg@, evs.skip(i as int + 1), module@) {
                        Ok(t2) => {
                            assert(old_b + (h@ + t2) =~= body@ + t2);
                        },
                        Err(_) => {},
                    }
                }
            },
            Err(e) => {
                return Err(e);
            },
        }
        i += 1;
    }
    proof {
        assert(evs.skip(b.entries@.len() as int) =~= Seq::<EntryV>::empty());
    }
    // import block
    let mut imports: Vec<String> = Vec::new();
    let ghost acc0 = vviews(imports@);
    proof {
        lemma_vviews(imports@);
        assert(acc0 =~= Seq::<Seq<char>>::empty());
    }
    let mut i: usize = 0;
    while i < b.entries.len()
        invariant
            i <= b.entries@.len(),
            bv == b@,
            evs == bv.entries,
            evs.len() == b.entries@.len(),
            forall|l: int| 0 <= l < b.entries@.len() ==> #[trigger] evs[l] == b.entries@[l]@,
            spec_collect_entries(reg@, evs, module@, Seq::empty()) == spec_collect_entries(
                reg@,
                evs.skip(i as int),
                module@,
                vviews(imports@),
            ),
        decreases b.entries@.len() - i,
    {
        proof {
            assert(evs.skip(i as int)[0] == evs[i as int]);
            assert(evs.skip(i as int).drop_first() =~= evs.skip(i as int + 1));
        }
        collect_entry(reg, &b.entries[i], module, &mut imports);
        i += 1;
    }
    proof {
        assert(evs.skip(b.entries@.len() as int) =~= Seq::<EntryV>::empty());
    }
    let ghost collected = spec_collect_entries(reg@, evs, module@, Seq::empty());
    let mut text = String::new();
    if imports.len() > 0 {
        let ghost ivs = vviews(imports@);
        proof {
            lemma_vviews(imports@);
            assert(ivs.skip(0) =~= ivs);
        }
        let mut k: usize = 0;
        while k < imports.len()
            invariant
                k <= imports@.len(),
                ivs == vviews(imports@),
                ivs.len() == imports@.len(),
                forall|l: int| 0 <= l < imports@.len() ==> #[trigger] ivs[l] == imports@[l]@,
                spec_imports_lines(ivs) == text@ + spec_imports_lines(ivs.skip(k as int)),
            decreases imports@.len() - k,
        {
            proof {
                assert(ivs.skip(k as int)[0] == ivs[k as int]);
                assert(ivs.skip(k as int).drop_first() =~= ivs.skip(k as int + 1));
            }
            let ghost old_t = text@;
            text.append("import ");
            text.append(imports[k].as_str());
            text.append("\n");
            proof {
                assert(old_t + ("import "@ + ivs[k as int] + "\n"@ + spec_imports_lines(
                    ivs.skip(k as int + 1),
                )) =~= text@ + spec_imports_lines(ivs.skip(k as int + 1)));
            }
            k += 1;
        }
        proof {
            assert(ivs.skip(imports@.len() as int) =~= Seq::<Seq<char>>::empty());
        }
        text.append("\n");
        proof {
            assert(text@ =~= spec_imports_text(collected));
        }
    } else {
        proof {
            assert(vviews(imports@) =~= Seq::<Seq<char>>::empty());
            assert(text@ =~= spec_imports_text(collected));
        }
    }
    text.append(body.as_str());
    // warnings
    let mut warnings: Vec<String> = Vec::new();
    let mut i: usize = 0;
    proof {
        lemma_vviews(warnings@);
        assert(evs.skip(0) =~= evs);
        assert(vviews(warnings@) =~= Seq::<Seq<char>>::empty());
    }
    while i < b.entries.len()
        invariant
            i <= b.entries@.len(),
            bv == b@,
            evs == bv.entries,
            evs.len() == b.entries@.len(),
            forall|l: int| 0 <= l < b.entries@.len() ==> #[trigger] evs[l] == b.entries@[l]@,
            spec_warnings(evs) == vviews(warnings@) + spec_warnings(evs.skip(i as int)),
        decreases b.entries@.len() - i,
    {
        proof {
            assert(evs.skip(i as int)[0] == evs[i as int]);
            assert(evs.skip(i as int).drop_first() =~= evs.skip(i as int + 1));
        }
        match &b.entries[i] {
            crate::records::Entry::Class(c) => {
                if c.synthesized {
                    let ghost old_w = vviews(warnings@);
                    let ghost pre = warnings@;
                    warnings.push(c.native.clone());
                    proof {
                        lemma_vviews_push(pre, warnings@[warnings@.len() - 1]);
                        assert(old_w + (seq![c@.native] + spec_warnings(evs.skip(i as int + 1)))
                            =~= vviews(warnings@) + spec_warnings(evs.skip(i as int + 1)));
                    }
                }
            },
            _ => {},
        }
        i += 1;
    }
    proof {
        assert(evs.skip(b.entries@.len() as int) =~= Seq::<EntryV>::empty());
        assert(spec_warnings(evs) =~= vviews(warnings@));
    }
    Ok(Rendered { text, warnings })
}

/// Rendering is deterministic: any two documents rendered from the same
/// unmodified registry state for the same module are byte-identical.
pub proof fn lemma_render_deterministic(
    reg: RegistryV,
    module: Seq<char>,
    r1: Result<Seq<char>, RenderErrorV>,
    r2: Result<Seq<char>, RenderErrorV>,
)
    requires
        r1 == spec_render_module(reg, module),
        r2 == spec_render_module(reg, module),
    ensures
        r1 == r2,
{
}

} // verus!
