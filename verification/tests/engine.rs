use derive_engine::analyzer::{classify, render_type, ShapeClass};
use derive_engine::builder_gen::{derive_builder, derive_builder_plan, SetterKind};
use derive_engine::builder_rt::{append_all, apply_setter, build, new_state, BuiltField, SetterArg, Slot};
use derive_engine::debug_gen::{derive_debug, derive_debug_plan, BoundsPlan};
use derive_engine::model::{
    Attr, DeclBody, Declaration, ErrorKind, FieldDescriptor, GenericParam, Meta, MetaItem, Span,
    TypeExpr, Visibility,
};

fn sp(line: usize) -> Span {
    Span { line, column: 1 }
}

fn named(segs: &[&str], args: Vec<TypeExpr>) -> TypeExpr {
    TypeExpr::Named {
        segments: segs.iter().map(|s| s.to_string()).collect(),
        args,
    }
}

fn simple(name: &str) -> TypeExpr {
    named(&[name], vec![])
}

fn field(name: &str, ty: TypeExpr, attrs: Vec<Attr>) -> FieldDescriptor {
    FieldDescriptor {
        name: name.to_string(),
        vis: Visibility::Inherited,
        ty,
        attrs,
    }
}

fn each_attr(name: &str) -> Attr {
    Attr {
        span: sp(2),
        meta: Meta::List {
            key: "builder".to_string(),
            items: vec![MetaItem::Str {
                key: "each".to_string(),
                value: name.to_string(),
            }],
        },
    }
}

fn format_attr(fmt: &str) -> Attr {
    Attr {
        span: sp(3),
        meta: Meta::Item {
            item: MetaItem::Str {
                key: "debug".to_string(),
                value: fmt.to_string(),
            },
        },
    }
}

fn bound_attr(clause: &str) -> Attr {
    Attr {
        span: sp(4),
        meta: Meta::List {
            key: "debug".to_string(),
            items: vec![MetaItem::Str {
                key: "bound".to_string(),
                value: clause.to_string(),
            }],
        },
    }
}

fn decl(name: &str, generics: Vec<GenericParam>, attrs: Vec<Attr>, fields: Vec<FieldDescriptor>) -> Declaration {
    Declaration {
        name: name.to_string(),
        vis: Visibility::Public,
        generics,
        attrs,
        body: DeclBody::NamedFields { fields },
        span: sp(1),
    }
}

fn param(name: &str, bounds: &str) -> GenericParam {
    GenericParam {
        name: name.to_string(),
        bounds: bounds.to_string(),
    }
}

#[test]
fn classify_optional_wrapper() {
    let t = named(&["Option"], vec![simple("String")]);
    assert_eq!(classify(&t), ShapeClass::Optional);
}

#[test]
fn classify_repeated_wrapper() {
    let t = named(&["Vec"], vec![simple("String")]);
    assert_eq!(classify(&t), ShapeClass::Repeated);
}

#[test]
fn classify_qualified_path_uses_last_segment() {
    let t = named(&["std", "option", "Option"], vec![simple("u8")]);
    assert_eq!(classify(&t), ShapeClass::Optional);
}

#[test]
fn classify_nested_wrapper_is_single_level() {
    // A sequence of optionals is Repeated at the outer level; a user type
    // that merely contains a wrapper deeper is Plain.
    let t = named(&["Vec"], vec![named(&["Option"], vec![simple("u8")])]);
    assert_eq!(classify(&t), ShapeClass::Repeated);
    let u = named(&["MyBox"], vec![named(&["Option"], vec![simple("u8")])]);
    assert_eq!(classify(&u), ShapeClass::Plain);
}

#[test]
fn classify_wrapper_needs_exactly_one_argument() {
    let t = named(&["Option"], vec![simple("u8"), simple("u16")]);
    assert_eq!(classify(&t), ShapeClass::Plain);
    let u = named(&["Option"], vec![]);
    assert_eq!(classify(&u), ShapeClass::Plain);
}

#[test]
fn render_type_text() {
    let t = named(&["std", "vec", "Vec"], vec![simple("String")]);
    assert_eq!(render_type(&t), "std::vec::Vec<String>");
    let o = TypeExpr::Opaque { text: "&'static str".to_string() };
    assert_eq!(render_type(&o), "&'static str");
}

#[test]
fn plain_fields_one_setter_each() {
    let d = decl(
        "Command",
        vec![],
        vec![],
        vec![
            field("executable", simple("String"), vec![]),
            field("level", simple("u8"), vec![]),
            field("tag", simple("String"), vec![]),
        ],
    );
    let plan = derive_builder_plan(&d).unwrap();
    assert_eq!(plan.fields.len(), 3);
    assert_eq!(plan.setters.len(), 3);
    for s in &plan.setters {
        assert_eq!(s.kind, SetterKind::WrapSet);
    }
    let st = new_state(&plan);
    for slot in &st.slots {
        assert!(matches!(slot, Slot::Missing));
    }
}

#[test]
fn append_directive_gives_both_setters() {
    let d = decl(
        "Command",
        vec![],
        vec![],
        vec![field(
            "args",
            named(&["Vec"], vec![simple("String")]),
            vec![each_attr("arg")],
        )],
    );
    let plan = derive_builder_plan(&d).unwrap();
    assert_eq!(plan.setters.len(), 2);
    assert_eq!(plan.setters[0].method_name, "arg");
    assert_eq!(plan.setters[0].kind, SetterKind::AppendOne);
    assert_eq!(plan.setters[1].method_name, "args");
    assert_eq!(plan.setters[1].kind, SetterKind::ReplaceAll);

    // Calling the appender twice and then build yields both elements in
    // call order.
    let mut st = new_state(&plan);
    apply_setter(&mut st, &plan, 0, SetterArg::One { value: "x".to_string() });
    apply_setter(&mut st, &plan, 0, SetterArg::One { value: "y".to_string() });
    let built = build(&st, &plan).unwrap();
    match &built[0] {
        BuiltField::Many { items } => assert_eq!(items, &vec!["x".to_string(), "y".to_string()]),
        _ => panic!("expected a sequence field"),
    }
}

#[test]
fn append_name_equal_to_field_gives_one_setter() {
    let d = decl(
        "Command",
        vec![],
        vec![],
        vec![field(
            "args",
            named(&["Vec"], vec![simple("String")]),
            vec![each_attr("args")],
        )],
    );
    let plan = derive_builder_plan(&d).unwrap();
    assert_eq!(plan.setters.len(), 1);
    assert_eq!(plan.setters[0].method_name, "args");
    assert_eq!(plan.setters[0].kind, SetterKind::AppendOne);
}

#[test]
fn build_with_optionals_untouched_succeeds() {
    let d = decl(
        "Command",
        vec![],
        vec![],
        vec![
            field("executable", simple("String"), vec![]),
            field("current_dir", named(&["Option"], vec![simple("String")]), vec![]),
            field("args", named(&["Vec"], vec![simple("String")]), vec![]),
        ],
    );
    let plan = derive_builder_plan(&d).unwrap();
    let mut st = new_state(&plan);
    apply_setter(&mut st, &plan, 0, SetterArg::One { value: "cargo".to_string() });
    let built = build(&st, &plan).unwrap();
    assert_eq!(built.len(), 3);
    match &built[0] {
        BuiltField::One { value } => assert_eq!(value, "cargo"),
        _ => panic!("expected a required field"),
    }
    match &built[1] {
        BuiltField::Maybe { value } => assert!(value.is_none()),
        _ => panic!("expected an optional field"),
    }
    match &built[2] {
        BuiltField::Many { items } => assert!(items.is_empty()),
        _ => panic!("expected a sequence field"),
    }
}

#[test]
fn build_missing_plain_field_names_it() {
    let d = decl(
        "Command",
        vec![],
        vec![],
        vec![
            field("executable", simple("String"), vec![]),
            field("level", simple("u8"), vec![]),
        ],
    );
    let plan = derive_builder_plan(&d).unwrap();
    let mut st = new_state(&plan);
    apply_setter(&mut st, &plan, 0, SetterArg::One { value: "cargo".to_string() });
    let err = build(&st, &plan).unwrap_err();
    assert_eq!(err, "level is need");
}

#[test]
fn three_appends_collect_in_order() {
    let d = decl(
        "Command",
        vec![],
        vec![],
        vec![field(
            "args",
            named(&["Vec"], vec![simple("String")]),
            vec![each_attr("arg")],
        )],
    );
    let plan = derive_builder_plan(&d).unwrap();
    let mut st = new_state(&plan);
    let items = vec!["a".to_string(), "b".to_string(), "c".to_string()];
    append_all(&mut st, &plan, 0, &items);
    let built = build(&st, &plan).unwrap();
    match &built[0] {
        BuiltField::Many { items } => {
            assert_eq!(items.len(), 3);
            assert_eq!(items, &vec!["a".to_string(), "b".to_string(), "c".to_string()]);
        },
        _ => panic!("expected a sequence field"),
    }
}

#[test]
fn replace_setter_installs_whole_sequence() {
    let d = decl(
        "Command",
        vec![],
        vec![],
        vec![field("args", named(&["Vec"], vec![simple("String")]), vec![each_attr("arg")])],
    );
    let plan = derive_builder_plan(&d).unwrap();
    let mut st = new_state(&plan);
    apply_setter(&mut st, &plan, 0, SetterArg::One { value: "zero".to_string() });
    apply_setter(
        &mut st,
        &plan,
        1,
        SetterArg::Many { items: vec!["one".to_string(), "two".to_string()] },
    );
    let built = build(&st, &plan).unwrap();
    match &built[0] {
        BuiltField::Many { items } => {
            assert_eq!(items, &vec!["one".to_string(), "two".to_string()])
        },
        _ => panic!("expected a sequence field"),
    }
}

#[test]
fn builder_code_for_one_plain_field() {
    let d = decl("Command", vec![], vec![], vec![field("executable", simple("String"), vec![])]);
    let code = derive_builder(&d).unwrap();
    let mut expected = String::new();
    for line in [
        "pub struct CommandBuilder {",
        "    executable: std::option::Option<String>,",
        "}",
        "impl Command {",
        "    pub fn builder() -> CommandBuilder {",
        "        CommandBuilder {",
        "            executable: std::option::Option::None,",
        "        }",
        "    }",
        "}",
        "impl CommandBuilder {",
        "    fn executable(&mut self, executable: String) -> &mut Self {",
        "        self.executable = std::option::Option::Some(executable);",
        "        self",
        "    }",
        "}",
        "impl CommandBuilder {",
        "    pub fn build(&self) -> std::result::Result<Command, std::boxed::Box<dyn std::error::Error>> {",
        "        if self.executable.is_none() {",
        "            return std::result::Result::Err(\"executable is need\".to_string().into());",
        "        }",
        "        let value = Command {",
        "            executable: self.executable.as_ref().unwrap().clone(),",
        "        };",
        "        std::result::Result::Ok(value)",
        "    }",
        "}",
    ] {
        expected.push_str(line);
        expected.push('\n');
    }
    assert_eq!(code, expected);
}

#[test]
fn unsupported_declaration_is_rejected() {
    let d = Declaration {
        name: "Direction".to_string(),
        vis: Visibility::Public,
        generics: vec![],
        attrs: vec![],
        body: DeclBody::Variants,
        span: sp(7),
    };
    let e = derive_builder(&d).unwrap_err();
    assert_eq!(e.kind, ErrorKind::NotASupportedDeclaration);
    assert_eq!(e.span, sp(7));
    assert_eq!(e.message(), "need a struct, but found a enum");
    let e2 = derive_debug(&d).unwrap_err();
    assert_eq!(e2.kind, ErrorKind::NotASupportedDeclaration);
}

#[test]
fn no_field_list_is_rejected() {
    let d = Declaration {
        name: "Unit".to_string(),
        vis: Visibility::Public,
        generics: vec![],
        attrs: vec![],
        body: DeclBody::NoFields,
        span: sp(9),
    };
    assert!(derive_builder(&d).is_err());
    assert!(derive_debug(&d).is_err());
}

#[test]
fn malformed_builder_directive_is_rejected() {
    let bad = Attr {
        span: sp(5),
        meta: Meta::List {
            key: "builder".to_string(),
            items: vec![MetaItem::Str { key: "eac".to_string(), value: "arg".to_string() }],
        },
    };
    let d = decl(
        "Command",
        vec![],
        vec![],
        vec![field("args", named(&["Vec"], vec![simple("String")]), vec![bad])],
    );
    let e = derive_builder(&d).unwrap_err();
    assert_eq!(e.kind, ErrorKind::MalformedBuilderDirective);
    assert_eq!(e.span, sp(5));
    assert_eq!(e.message(), "expected builder(each = \"...\")");
}

#[test]
fn append_name_clashing_with_other_field_is_rejected() {
    let d = decl(
        "Command",
        vec![],
        vec![],
        vec![
            field("env", simple("String"), vec![]),
            field("args", named(&["Vec"], vec![simple("String")]), vec![each_attr("env")]),
        ],
    );
    let e = derive_builder(&d).unwrap_err();
    assert_eq!(e.kind, ErrorKind::AppendNameClash);
    assert_eq!(e.message(), "append name collides with another field");
}

#[test]
fn debug_code_for_non_generic_declaration() {
    let d = decl(
        "Packet",
        vec![],
        vec![],
        vec![
            field("bitmask", simple("u8"), vec![format_attr("0b{:08b}")]),
            field("label", simple("String"), vec![]),
        ],
    );
    let code = derive_debug(&d).unwrap();
    let mut expected = String::new();
    expected.push_str("impl std::fmt::Debug for Packet");
    expected.push_str(" {\n    fn fmt(&self, f: &mut std::fmt::Formatter<'_>) -> std::fmt::Result {\n");
    expected.push_str("        f.debug_struct(\"Packet\")");
    expected.push_str(".field(\"bitmask\", &std::format_args!(\"0b{:08b}\", &self.bitmask))");
    expected.push_str(".field(\"label\", &std::format_args!(\"{:?}\", &self.label))");
    expected.push_str(".finish()\n    }\n}\n");
    assert_eq!(code, expected);
}

#[test]
fn marker_only_parameter_gets_no_bound() {
    let d = decl(
        "Holder",
        vec![param("T", "")],
        vec![],
        vec![field("s", named(&["PhantomData"], vec![simple("T")]), vec![])],
    );
    let plan = derive_debug_plan(&d).unwrap();
    match &plan.bounds {
        BoundsPlan::Inferred { bounded, projections } => {
            assert!(bounded.is_empty());
            assert!(projections.is_empty());
        },
        _ => panic!("expected inferred bounds"),
    }
}

#[test]
fn direct_field_use_gets_the_bound() {
    let d = decl(
        "Holder",
        vec![param("T", "")],
        vec![],
        vec![
            field("s", named(&["PhantomData"], vec![simple("T")]), vec![]),
            field("value", simple("T"), vec![]),
        ],
    );
    let plan = derive_debug_plan(&d).unwrap();
    match &plan.bounds {
        BoundsPlan::Inferred { bounded, .. } => {
            assert_eq!(bounded, &vec!["T".to_string()]);
        },
        _ => panic!("expected inferred bounds"),
    }
}

#[test]
fn bound_override_replaces_inference() {
    let d = decl(
        "Holder",
        vec![param("T", "")],
        vec![bound_attr("T::Value: Debug")],
        vec![field("value", simple("T"), vec![])],
    );
    let plan = derive_debug_plan(&d).unwrap();
    match &plan.bounds {
        BoundsPlan::Overridden { clause } => assert_eq!(clause, "T::Value: Debug"),
        _ => panic!("expected the override"),
    }
}

#[test]
fn several_bound_fragments_join_with_commas() {
    let d = decl(
        "Holder",
        vec![param("T", "")],
        vec![bound_attr("T::Value: Debug"), bound_attr("T: Debug")],
        vec![field("value", simple("T"), vec![])],
    );
    let plan = derive_debug_plan(&d).unwrap();
    match &plan.bounds {
        BoundsPlan::Overridden { clause } => assert_eq!(clause, "T::Value: Debug,T: Debug"),
        _ => panic!("expected the override"),
    }
}

fn demo_subject_declaration(attrs: Vec<Attr>) -> Declaration {
    decl(
        "Field",
        vec![param("T", "Trait"), param("U", "")],
        attrs,
        vec![
            field("bitmask", simple("u8"), vec![format_attr("0b{:08b}")]),
            field("s", named(&["std", "marker", "PhantomData"], vec![simple("T")]), vec![]),
            field("ss", named(&["Box"], vec![simple("T")]), vec![]),
            field("f", named(&["Box"], vec![named(&["Vec"], vec![simple("U")])]), vec![]),
            field(
                "values",
                named(&["Vec"], vec![named(&["T", "Value"], vec![])]),
                vec![],
            ),
        ],
    )
}

#[test]
fn demo_subject_with_override_keeps_clause_verbatim() {
    let d = demo_subject_declaration(vec![bound_attr("T::Value: Debug,T:Debug,U:Debug")]);
    let code = derive_debug(&d).unwrap();
    assert!(code.starts_with(
        "impl<T: Trait, U> std::fmt::Debug for Field<T, U> where T::Value: Debug,T:Debug,U:Debug {\n"
    ));
    assert!(code.contains(".field(\"bitmask\", &std::format_args!(\"0b{:08b}\", &self.bitmask))"));
}

#[test]
fn demo_subject_inferred_bounds_and_projection() {
    let d = demo_subject_declaration(vec![]);
    let plan = derive_debug_plan(&d).unwrap();
    match &plan.bounds {
        BoundsPlan::Inferred { bounded, projections } => {
            assert_eq!(bounded, &vec!["T".to_string(), "U".to_string()]);
            assert_eq!(projections, &vec!["T::Value".to_string()]);
        },
        _ => panic!("expected inferred bounds"),
    }
    let code = derive_debug(&d).unwrap();
    assert!(code.starts_with(
        "impl<T: Trait + std::fmt::Debug, U: std::fmt::Debug> std::fmt::Debug for Field<T, U> where T::Value: std::fmt::Debug {\n"
    ));
}

#[test]
fn repeated_projection_is_collected_once() {
    let d = decl(
        "Pair",
        vec![param("T", "Trait")],
        vec![],
        vec![
            field("first", named(&["T", "Value"], vec![]), vec![]),
            field("second", named(&["T", "Value"], vec![]), vec![]),
        ],
    );
    let plan = derive_debug_plan(&d).unwrap();
    match &plan.bounds {
        BoundsPlan::Inferred { projections, .. } => {
            assert_eq!(projections, &vec!["T::Value".to_string()]);
        },
        _ => panic!("expected inferred bounds"),
    }
}

#[test]
fn derivations_are_deterministic() {
    let d = demo_subject_declaration(vec![]);
    assert_eq!(derive_debug(&d).unwrap(), derive_debug(&d).unwrap());
    let b = decl(
        "Command",
        vec![],
        vec![],
        vec![field("args", named(&["Vec"], vec![simple("String")]), vec![each_attr("arg")])],
    );
    assert_eq!(derive_builder(&b).unwrap(), derive_builder(&b).unwrap());
    let p1 = derive_builder_plan(&b).unwrap();
    let p2 = derive_builder_plan(&b).unwrap();
    assert_eq!(p1.setters.len(), p2.setters.len());
}

#[test]
fn empty_field_list_yields_empty_builder() {
    let d = decl("Nothing", vec![], vec![], vec![]);
    let plan = derive_builder_plan(&d).unwrap();
    assert_eq!(plan.fields.len(), 0);
    assert_eq!(plan.setters.len(), 0);
    assert_eq!(plan.companion, "NothingBuilder");
    let st = new_state(&plan);
    assert!(build(&st, &plan).is_ok());
}
