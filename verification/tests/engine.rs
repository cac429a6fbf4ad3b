//! End-to-end tests of the stub engine: translation, registration and
//! rendering.

use stubgen::records::DeclarationRecord;
use stubgen::records::EnumVariant;
use stubgen::records::FieldRecord;
use stubgen::records::MethodKind;
use stubgen::records::MethodRecord;
use stubgen::records::Param;
use stubgen::registry::Registry;
use stubgen::render::RenderError;
use stubgen::render::render;
use stubgen::translate::ContainerKind;
use stubgen::translate::NativeType;
use stubgen::translate::translate;
use stubgen::type_expr::TypeExpr;

fn s(x: &str) -> String {
    x.to_owned()
}

fn opt(inner: NativeType) -> NativeType {
    NativeType::Container { kind: ContainerKind::Nullable, args: vec![inner] }
}

fn field(reg: &Registry, name: &str, ty: NativeType) -> FieldRecord {
    FieldRecord { name: s(name), ty: translate(reg, &ty) }
}

fn placeholder_class(reg: &Registry) -> DeclarationRecord {
    DeclarationRecord::Class {
        native: s("PyPlaceholder"),
        name: s("Placeholder"),
        module: s("my_module"),
        tags: Vec::new(),
        fields: vec![
            field(reg, "name", NativeType::Text),
            field(reg, "ndim", NativeType::UnsignedInt),
            field(reg, "description", opt(NativeType::Text)),
        ],
    }
}

#[test]
fn class_with_typed_fields_renders_in_order() {
    let mut reg = Registry::new(s("my_module"));
    let rec = placeholder_class(&reg);
    reg.register(rec);
    let out = render(&reg, &s("my_module")).unwrap();
    assert_eq!(
        out.text,
        "class Placeholder:\n    name: str\n    ndim: int\n    description: Optional[str]\n\n"
    );
    assert!(out.warnings.is_empty());
}

#[test]
fn enum_variants_render_as_typed_constants_under_their_aliases() {
    let mut reg = Registry::new(s("my_module"));
    reg.register(DeclarationRecord::Enum {
        native: s("PyDataType"),
        name: s("DataType"),
        module: s("my_module"),
        variants: vec![
            EnumVariant { native: s("Float"), alias: Some(s("FLOAT")) },
            EnumVariant { native: s("Integer"), alias: Some(s("INTEGER")) },
        ],
    });
    let out = render(&reg, &s("my_module")).unwrap();
    assert_eq!(
        out.text,
        "class DataType:\n    FLOAT: DataType\n    INTEGER: DataType\n\n"
    );
}

#[test]
fn function_with_module_override_lands_only_there() {
    let mut reg = Registry::new(s("main_mod"));
    let x = Param { name: s("x"), ty: translate(&reg, &NativeType::UnsignedInt), has_default: false };
    let ret = translate(&reg, &NativeType::Bool);
    reg.register_function(s("is_odd"), vec![x], ret, Some(s("my_module.experimental")));
    let there = render(&reg, &s("my_module.experimental")).unwrap();
    assert_eq!(there.text, "def is_odd(x: int) -> bool: ...\n\n");
    let default = render(&reg, &s("main_mod")).unwrap();
    assert!(!default.text.contains("is_odd"));
}

#[test]
fn function_without_override_lands_in_default_module() {
    let mut reg = Registry::new(s("main_mod"));
    let ret = translate(&reg, &NativeType::Unit);
    reg.register_function(s("reset"), Vec::new(), ret, None);
    let out = render(&reg, &s("main_mod")).unwrap();
    assert_eq!(out.text, "def reset() -> None: ...\n\n");
}

#[test]
fn registering_the_same_record_twice_changes_nothing() {
    let mut once = Registry::new(s("my_module"));
    let rec = placeholder_class(&once);
    once.register(rec);
    let mut twice = Registry::new(s("my_module"));
    let rec1 = placeholder_class(&twice);
    let rec2 = placeholder_class(&twice);
    twice.register(rec1);
    twice.register(rec2);
    let a = render(&once, &s("my_module")).unwrap();
    let b = render(&twice, &s("my_module")).unwrap();
    assert_eq!(a.text, b.text);
}

#[test]
fn rendering_twice_is_byte_identical() {
    let mut reg = Registry::new(s("my_module"));
    let rec = placeholder_class(&reg);
    reg.register(rec);
    let a = render(&reg, &s("my_module")).unwrap();
    let b = render(&reg, &s("my_module")).unwrap();
    assert_eq!(a.text, b.text);
}

#[test]
fn forward_reference_resolves_once_the_class_arrives() {
    let mut reg = Registry::new(s("m"));
    // a method referencing B, registered before B exists
    let ret = translate(&reg, &NativeType::UserRef { native: s("B") });
    assert!(matches!(ret, TypeExpr::Unresolved { .. }));
    reg.register(DeclarationRecord::Class {
        native: s("A"),
        name: s("A"),
        module: s("m"),
        tags: Vec::new(),
        fields: Vec::new(),
    });
    reg.register(DeclarationRecord::Method {
        class_native: s("A"),
        module: s("m"),
        method: MethodRecord { name: s("get_b"), params: Vec::new(), ret, kind: MethodKind::Instance },
    });
    reg.register(DeclarationRecord::Class {
        native: s("B"),
        name: s("B"),
        module: s("m"),
        tags: Vec::new(),
        fields: Vec::new(),
    });
    let out = render(&reg, &s("m")).unwrap();
    assert!(out.text.contains("    def get_b(self) -> B: ...\n"));
}

#[test]
fn unresolved_forward_reference_raises_missing_type_naming_it() {
    let mut reg = Registry::new(s("m"));
    let ret = translate(&reg, &NativeType::UserRef { native: s("B") });
    reg.register(DeclarationRecord::Class {
        native: s("A"),
        name: s("A"),
        module: s("m"),
        tags: Vec::new(),
        fields: Vec::new(),
    });
    reg.register(DeclarationRecord::Method {
        class_native: s("A"),
        module: s("m"),
        method: MethodRecord { name: s("get_b"), params: Vec::new(), ret, kind: MethodKind::Instance },
    });
    match render(&reg, &s("m")) {
        Err(RenderError::MissingType { decl, native }) => {
            assert_eq!(native, "B");
            assert_eq!(decl, "A");
        }
        other => panic!("expected a missing-type error, got {:?}", other.is_ok()),
    }
}

#[test]
fn wrong_container_arity_raises_unsupported_arity() {
    let mut reg = Registry::new(s("m"));
    let bad = NativeType::Container {
        kind: ContainerKind::Dict,
        args: vec![NativeType::Text, NativeType::Text, NativeType::Text],
    };
    let ret = translate(&reg, &bad);
    reg.register_function(s("f"), Vec::new(), ret, None);
    match render(&reg, &s("m")) {
        Err(RenderError::UnsupportedArity { decl, base, got }) => {
            assert_eq!(decl, "f");
            assert_eq!(base, "dict");
            assert_eq!(got, 3);
        }
        _ => panic!("expected an arity error"),
    }
}

#[test]
fn doubled_optional_translates_like_single_optional() {
    let reg = Registry::new(s("m"));
    let single = translate(&reg, &opt(NativeType::Text));
    let double = translate(&reg, &opt(opt(NativeType::Text)));
    assert!(single.deep_eq(&double));
}

#[test]
fn translation_is_deterministic_for_primitives() {
    let reg = Registry::new(s("m"));
    for t in [
        NativeType::Bool,
        NativeType::SignedInt,
        NativeType::UnsignedInt,
        NativeType::Floating,
        NativeType::Text,
        NativeType::Binary,
        NativeType::Unit,
    ] {
        let a = translate(&reg, &t);
        let b = translate(&reg, &t);
        assert!(a.deep_eq(&b));
    }
}

#[test]
fn unions_flatten_and_drop_duplicates() {
    let mut reg = Registry::new(s("m"));
    let u = NativeType::Container {
        kind: ContainerKind::OneOf,
        args: vec![
            NativeType::Text,
            NativeType::Container {
                kind: ContainerKind::OneOf,
                args: vec![NativeType::Text, NativeType::UnsignedInt],
            },
        ],
    };
    let ret = translate(&reg, &u);
    reg.register_function(s("pick"), Vec::new(), ret, None);
    let out = render(&reg, &s("m")).unwrap();
    assert_eq!(out.text, "def pick() -> Union[str, int]: ...\n\n");
}

#[test]
fn single_member_union_collapses() {
    let reg = Registry::new(s("m"));
    let u = NativeType::Container { kind: ContainerKind::OneOf, args: vec![NativeType::Text] };
    let a = translate(&reg, &u);
    let b = translate(&reg, &NativeType::Text);
    assert!(a.deep_eq(&b));
}

#[test]
fn containers_render_with_their_python_spellings() {
    let mut reg = Registry::new(s("m"));
    let ty = NativeType::Container {
        kind: ContainerKind::Dict,
        args: vec![
            NativeType::Text,
            NativeType::Container {
                kind: ContainerKind::List,
                args: vec![NativeType::Container {
                    kind: ContainerKind::Tuple,
                    args: vec![NativeType::UnsignedInt, NativeType::Floating],
                }],
            },
        ],
    };
    let ret = translate(&reg, &ty);
    reg.register_function(s("table"), Vec::new(), ret, None);
    let out = render(&reg, &s("m")).unwrap();
    assert_eq!(out.text, "def table() -> dict[str, list[tuple[int, float]]]: ...\n\n");
}

#[test]
fn unknown_native_types_render_as_any() {
    let mut reg = Registry::new(s("m"));
    let ret = translate(&reg, &NativeType::Opaque);
    reg.register_function(s("mystery"), Vec::new(), ret, None);
    let out = render(&reg, &s("m")).unwrap();
    assert_eq!(out.text, "def mystery() -> Any: ...\n\n");
}

#[test]
fn cross_module_references_are_imported_sorted_and_deduplicated() {
    let mut reg = Registry::new(s("m"));
    for (native, name, module) in [("ZT", "Z", "zmod"), ("AT", "A", "amod")] {
        reg.register(DeclarationRecord::Class {
            native: s(native),
            name: s(name),
            module: s(module),
            tags: Vec::new(),
            fields: Vec::new(),
        });
    }
    let z1 = translate(&reg, &NativeType::UserRef { native: s("ZT") });
    let z2 = translate(&reg, &NativeType::UserRef { native: s("ZT") });
    let a1 = translate(&reg, &NativeType::UserRef { native: s("AT") });
    reg.register(DeclarationRecord::Class {
        native: s("Holder"),
        name: s("Holder"),
        module: s("m"),
        tags: Vec::new(),
        fields: vec![
            FieldRecord { name: s("z"), ty: z1 },
            FieldRecord { name: s("zz"), ty: z2 },
            FieldRecord { name: s("a"), ty: a1 },
        ],
    });
    let out = render(&reg, &s("m")).unwrap();
    assert_eq!(
        out.text,
        "import amod\nimport zmod\n\nclass Holder:\n    z: zmod.Z\n    zz: zmod.Z\n    a: amod.A\n\n"
    );
}

#[test]
fn dangling_methods_attach_to_a_flagged_placeholder() {
    let mut reg = Registry::new(s("m"));
    let ret = translate(&reg, &NativeType::Bool);
    reg.register(DeclarationRecord::Method {
        class_native: s("Ghostly"),
        module: s("m"),
        method: MethodRecord { name: s("ok"), params: Vec::new(), ret, kind: MethodKind::Instance },
    });
    let out = render(&reg, &s("m")).unwrap();
    assert!(out.text.contains("class Ghostly:\n    def ok(self) -> bool: ...\n"));
    assert_eq!(out.warnings, vec![s("Ghostly")]);
}

#[test]
fn class_and_method_block_registrations_merge() {
    let mut reg = Registry::new(s("m"));
    let ret = translate(&reg, &NativeType::Text);
    reg.register(DeclarationRecord::Method {
        class_native: s("PyThing"),
        module: s("m"),
        method: MethodRecord {
            name: s("label"),
            params: Vec::new(),
            ret,
            kind: MethodKind::Getter,
        },
    });
    let rec = DeclarationRecord::Class {
        native: s("PyThing"),
        name: s("Thing"),
        module: s("m"),
        tags: vec![s("mapping")],
        fields: vec![field(&reg, "size", NativeType::UnsignedInt)],
    };
    reg.register(rec);
    let out = render(&reg, &s("m")).unwrap();
    assert_eq!(
        out.text,
        "class Thing(mapping):\n    size: int\n    label: str\n\n"
    );
    assert!(out.warnings.is_empty());
}

#[test]
fn modules_list_in_first_seen_order() {
    let mut reg = Registry::new(s("m"));
    let r1 = translate(&reg, &NativeType::Unit);
    reg.register_function(s("f"), Vec::new(), r1, Some(s("b_mod")));
    let r2 = translate(&reg, &NativeType::Unit);
    reg.register_function(s("g"), Vec::new(), r2, Some(s("a_mod")));
    assert_eq!(reg.all_modules(), vec![s("b_mod"), s("a_mod")]);
}

#[test]
fn default_parameters_are_annotated() {
    let mut reg = Registry::new(s("m"));
    let x = Param { name: s("x"), ty: translate(&reg, &NativeType::UnsignedInt), has_default: true };
    let ret = translate(&reg, &NativeType::Bool);
    reg.register_function(s("h"), vec![x], ret, None);
    let out = render(&reg, &s("m")).unwrap();
    assert_eq!(out.text, "def h(x: int = ...) -> bool: ...\n\n");
}

#[test]
fn static_and_class_methods_render_their_receivers() {
    let mut reg = Registry::new(s("m"));
    reg.register(DeclarationRecord::Class {
        native: s("C"),
        name: s("C"),
        module: s("m"),
        tags: Vec::new(),
        fields: Vec::new(),
    });
    let r1 = translate(&reg, &NativeType::Bool);
    reg.register(DeclarationRecord::Method {
        class_native: s("C"),
        module: s("m"),
        method: MethodRecord { name: s("s"), params: Vec::new(), ret: r1, kind: MethodKind::Static },
    });
    let r2 = translate(&reg, &NativeType::Bool);
    reg.register(DeclarationRecord::Method {
        class_native: s("C"),
        module: s("m"),
        method: MethodRecord { name: s("c"), params: Vec::new(), ret: r2, kind: MethodKind::Class },
    });
    let out = render(&reg, &s("m")).unwrap();
    assert!(out.text.contains("    def s() -> bool: ...\n"));
    assert!(out.text.contains("    def c(cls) -> bool: ...\n"));
}

#[test]
fn rendering_an_unknown_module_yields_the_empty_document() {
    let reg = Registry::new(s("m"));
    let out = render(&reg, &s("nowhere")).unwrap();
    assert_eq!(out.text, "");
    assert!(out.warnings.is_empty());
}
