//! Normalized declaration records: classes, enums, methods, properties and
//! free functions, as reported by declaration-site collaborators.

use vstd::prelude::*;
use crate::type_expr::TypeExpr;
use crate::type_expr::TypeExprV;
use crate::type_expr::views_of;

verus! {

/// The views of a sequence, element by element.
pub open spec fn vviews<T: View>(s: Seq<T>) -> Seq<T::V>
    decreases s,
{
    if s.len() == 0 {
        Seq::empty()
    } else {
        seq![s[0]@] + vviews(s.drop_first())
    }
}

/// `vviews` maps the sequence pointwise.
pub proof fn lemma_vviews<T: View>(s: Seq<T>)
    ensures
        vviews(s).len() == s.len(),
        forall|i: int| 0 <= i < s.len() ==> #[trigger] vviews(s)[i] == s[i]@,
    decreases s.len(),
{
    if s.len() != 0 {
        lemma_vviews(s.drop_first());
        assert forall|i: int| 0 <= i < s.len() implies #[trigger] vviews(s)[i] == s[i]@ by {
            if i > 0 {
                assert(vviews(s)[i] == vviews(s.drop_first())[i - 1]);
                assert(s.drop_first()[i - 1] == s[i]);
            }
        }
    }
}

/// Extending a sequence by one element extends its views by that
/// element's view.
pub proof fn lemma_vviews_push<T: View>(s: Seq<T>, x: T)
    ensures
        vviews(s.push(x)) =~= vviews(s).push(x@),
{
    lemma_vviews(s.push(x));
    lemma_vviews(s);
    assert forall|i: int|
        0 <= i < s.len() + 1 implies vviews(s.push(x))[i] == vviews(s).push(x@)[i] by {
        assert(vviews(s.push(x))[i] == s.push(x)[i]@);
        if i < s.len() {
            assert(s.push(x)[i] == s[i]);
            assert(vviews(s)[i] == s[i]@);
        } else {
            assert(s.push(x)[i] == x);
        }
    }
}

/// How a method-like record binds: plain instance method, static or class
/// method, or the two property accessors.
#[derive(Clone, Copy, PartialEq, Eq, Structural)]
pub enum MethodKind {
    Instance,
    Static,
    Class,
    Getter,
    Setter,
}

/// One parameter of a method or function signature.
pub struct Param {
    pub name: String,
    pub ty: TypeExpr,
    pub has_default: bool,
}

/// Model of a [`Param`].
#[verifier::ext_equal]
pub struct ParamV {
    pub name: Seq<char>,
    pub ty: TypeExprV,
    pub has_default: bool,
}

impl View for Param {
    type V = ParamV;

    open spec fn view(&self) -> ParamV {
        ParamV { name: self.name@, ty: self.ty@, has_default: self.has_default }
    }
}

/// A method or property record, owned by a class.
pub struct MethodRecord {
    pub name: String,
    pub params: Vec<Param>,
    pub ret: TypeExpr,
    pub kind: MethodKind,
}

/// Model of a [`MethodRecord`].
#[verifier::ext_equal]
pub struct MethodRecordV {
    pub name: Seq<char>,
    pub params: Seq<ParamV>,
    pub ret: TypeExprV,
    pub kind: MethodKind,
}

impl View for MethodRecord {
    type V = MethodRecordV;

    open spec fn view(&self) -> MethodRecordV {
        MethodRecordV {
            name: self.name@,
            params: vviews(self.params@),
            ret: self.ret@,
            kind: self.kind,
        }
    }
}

/// A typed field of a class.
pub struct FieldRecord {
    pub name: String,
    pub ty: TypeExpr,
}

/// Model of a [`FieldRecord`].
#[verifier::ext_equal]
pub struct FieldRecordV {
    pub name: Seq<char>,
    pub ty: TypeExprV,
}

impl View for FieldRecord {
    type V = FieldRecordV;

    open spec fn view(&self) -> FieldRecordV {
        FieldRecordV { name: self.name@, ty: self.ty@ }
    }
}

/// One variant of an exposed enum, with an optional scripting-visible
/// alias.
pub struct EnumVariant {
    pub native: String,
    pub alias: Option<String>,
}

/// Model of an [`EnumVariant`].
#[verifier::ext_equal]
pub struct EnumVariantV {
    pub native: Seq<char>,
    pub alias: Option<Seq<char>>,
}

impl View for EnumVariant {
    type V = EnumVariantV;

    open spec fn view(&self) -> EnumVariantV {
        EnumVariantV {
            native: self.native@,
            alias: match self.alias {
                Some(a) => Some(a@),
                None => None,
            },
        }
    }
}

/// Accumulated class data: identity, capability tags, fields and methods.
/// `synthesized` marks a placeholder created for a method whose owning
/// class was never registered itself.
pub struct ClassData {
    pub native: String,
    pub name: String,
    pub tags: Vec<String>,
    pub fields: Vec<FieldRecord>,
    pub methods: Vec<MethodRecord>,
    pub synthesized: bool,
}

/// Model of [`ClassData`].
#[verifier::ext_equal]
pub struct ClassDataV {
    pub native: Seq<char>,
    pub name: Seq<char>,
    pub tags: Seq<Seq<char>>,
    pub fields: Seq<FieldRecordV>,
    pub methods: Seq<MethodRecordV>,
    pub synthesized: bool,
}

impl View for ClassData {
    type V = ClassDataV;

    open spec fn view(&self) -> ClassDataV {
        ClassDataV {
            native: self.native@,
            name: self.name@,
            tags: vviews(self.tags@),
            fields: vviews(self.fields@),
            methods: vviews(self.methods@),
            synthesized: self.synthesized,
        }
    }
}

/// Accumulated enum data: identity and ordered variants.
pub struct EnumData {
    pub native: String,
    pub name: String,
    pub variants: Vec<EnumVariant>,
}

/// Model of [`EnumData`].
#[verifier::ext_equal]
pub struct EnumDataV {
    pub native: Seq<char>,
    pub name: Seq<char>,
    pub variants: Seq<EnumVariantV>,
}

impl View for EnumData {
    type V = EnumDataV;

    open spec fn view(&self) -> EnumDataV {
        EnumDataV { native: self.native@, name: self.name@, variants: vviews(self.variants@) }
    }
}

/// A free function exposed at module level.
pub struct FunctionData {
    pub name: String,
    pub params: Vec<Param>,
    pub ret: TypeExpr,
}

/// Model of [`FunctionData`].
#[verifier::ext_equal]
pub struct FunctionDataV {
    pub name: Seq<char>,
    pub params: Seq<ParamV>,
    pub ret: TypeExprV,
}

impl View for FunctionData {
    type V = FunctionDataV;

    open spec fn view(&self) -> FunctionDataV {
        FunctionDataV { name: self.name@, params: vviews(self.params@), ret: self.ret@ }
    }
}

/// A top-level entry of a module bucket.
pub enum Entry {
    Class(ClassData),
    Enum(EnumData),
    Function(FunctionData),
}

/// Model of an [`Entry`].
#[verifier::ext_equal]
pub enum EntryV {
    Class(ClassDataV),
    Enum(EnumDataV),
    Function(FunctionDataV),
}

impl View for Entry {
    type V = EntryV;

    open spec fn view(&self) -> EntryV {
        match self {
            Entry::Class(c) => EntryV::Class(c@),
            Entry::Enum(e) => EntryV::Enum(e@),
            Entry::Function(f) => EntryV::Function(f@),
        }
    }
}

/// One registration reported by a declaration site: the struct-level part
/// of a class, an enum, one method or property naming its owning class by
/// native identifier, or a free function.
pub enum DeclarationRecord {
    Class { native: String, name: String, module: String, tags: Vec<String>, fields: Vec<
        FieldRecord,
    > },
    Enum { native: String, name: String, module: String, variants: Vec<EnumVariant> },
    Method { class_native: String, module: String, method: MethodRecord },
    Function { name: String, module: String, params: Vec<Param>, ret: TypeExpr },
}

/// Model of a [`DeclarationRecord`].
#[verifier::ext_equal]
pub enum DeclarationRecordV {
    Class { native: Seq<char>, name: Seq<char>, module: Seq<char>, tags: Seq<Seq<char>>, fields: Seq<
        FieldRecordV,
    > },
    Enum { native: Seq<char>, name: Seq<char>, module: Seq<char>, variants: Seq<EnumVariantV> },
    Method { class_native: Seq<char>, module: Seq<char>, method: MethodRecordV },
    Function { name: Seq<char>, module: Seq<char>, params: Seq<ParamV>, ret: TypeExprV },
}

impl View for DeclarationRecord {
    type V = DeclarationRecordV;

    open spec fn view(&self) -> DeclarationRecordV {
        match self {
            DeclarationRecord::Class { native, name, module, tags, fields } => (
            DeclarationRecordV::Class {
                native: native@,
                name: name@,
                module: module@,
                tags: vviews(tags@),
                fields: vviews(fields@),
            }),
            DeclarationRecord::Enum { native, name, module, variants } => (
            DeclarationRecordV::Enum {
                native: native@,
                name: name@,
                module: module@,
                variants: vviews(variants@),
            }),
            DeclarationRecord::Method { class_native, module, method } => (
            DeclarationRecordV::Method {
                class_native: class_native@,
                module: module@,
                method: method@,
            }),
            DeclarationRecord::Function { name, module, params, ret } => (
            DeclarationRecordV::Function {
                name: name@,
                module: module@,
                params: vviews(params@),
                ret: ret@,
            }),
        }
    }
}


/// Updating one element updates its view pointwise.
pub proof fn lemma_vviews_update<T: View>(s: Seq<T>, i: int, x: T)
    requires
        0 <= i < s.len(),
    ensures
        vviews(s.update(i, x)) =~= vviews(s).update(i, x@),
{
    lemma_vviews(s.update(i, x));
    lemma_vviews(s);
    assert forall|j: int|
        0 <= j < s.len() implies vviews(s.update(i, x))[j] == vviews(s).update(i, x@)[j] by {
        assert(vviews(s.update(i, x))[j] == s.update(i, x)[j]@);
        if j != i {
            assert(s.update(i, x)[j] == s[j]);
            assert(vviews(s)[j] == s[j]@);
        }
    }
}


} // verus!
