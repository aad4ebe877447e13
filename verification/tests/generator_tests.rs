use code_gen_core::backend::Lang;
use code_gen_core::generator::CodeGenerator;
use code_gen_core::model::{CodeGenError, Constraint, FieldDecl, ShapeKind, TypeDef, TypeRef};

fn rust_templates() -> Vec<String> {
    vec![
        "value.templ".to_string(),
        "sequence.templ".to_string(),
        "struct.templ".to_string(),
        "mod.templ".to_string(),
    ]
}

fn java_templates() -> Vec<String> {
    vec!["value.templ".to_string(), "sequence.templ".to_string(), "class.templ".to_string()]
}

fn named(n: &str) -> TypeRef {
    TypeRef::Named(n.to_string())
}

fn decl(name: &str, r: TypeRef) -> FieldDecl {
    FieldDecl { name: name.to_string(), type_ref: r }
}

#[test]
fn struct_fields_in_declared_order() {
    let mut g = CodeGenerator::new(Lang::Rust, &rust_templates()).unwrap();
    let td = TypeDef {
        name: Some("Person".to_string()),
        constraints: vec![Constraint::Fields(
            vec![
                decl("name", named("string")),
                decl("age", named("int")),
                decl("is_active", named("bool")),
            ],
            false,
        )],
    };
    let out = g.generate_code_for(&vec![td]).unwrap();
    assert_eq!(out.files.len(), 1);
    let f = &out.files[0];
    assert_eq!(f.template, "struct.templ");
    assert_eq!(f.stem, "person");
    assert_eq!(f.extension, "rs");
    assert_eq!(f.target_kind_name, "Person");
    assert!(f.is_root);
    assert!(f.sample.is_none());
    let names: Vec<&str> = f.fields.iter().map(|x| x.name.as_str()).collect();
    assert_eq!(names, vec!["name", "age", "is_active"]);
    let targets: Vec<&str> = f.fields.iter().map(|x| x.target.as_str()).collect();
    assert_eq!(targets, vec!["String", "i64", "bool"]);
    let sources: Vec<&str> = f.fields.iter().map(|x| x.source.as_str()).collect();
    assert_eq!(sources, vec!["string", "int", "bool"]);
    // all three field types are built-in primitives: no imports
    assert!(f.imports.is_empty());
}

#[test]
fn value_shape_single_file() {
    let mut g = CodeGenerator::new(Lang::Rust, &rust_templates()).unwrap();
    let td = TypeDef {
        name: Some("UserId".to_string()),
        constraints: vec![Constraint::WholeType(named("int"))],
    };
    let out = g.generate_code_for(&vec![td]).unwrap();
    assert_eq!(out.files.len(), 1);
    let f = &out.files[0];
    assert_eq!(f.template, "value.templ");
    assert_eq!(f.stem, "user_id");
    assert_eq!(f.fields.len(), 1);
    assert_eq!(f.fields[0].name, "value");
    assert_eq!(f.fields[0].source, "int");
    assert_eq!(f.fields[0].target, "i64");
}

#[test]
fn sequence_shape_wraps_element_type() {
    let mut g = CodeGenerator::new(Lang::Rust, &rust_templates()).unwrap();
    let td = TypeDef {
        name: Some("Tags".to_string()),
        constraints: vec![Constraint::ElementType(named("string"))],
    };
    let out = g.generate_code_for(&vec![td]).unwrap();
    assert_eq!(out.files.len(), 1);
    let f = &out.files[0];
    assert_eq!(f.template, "sequence.templ");
    assert_eq!(f.fields.len(), 1);
    assert_eq!(f.fields[0].name, "value");
    assert_eq!(f.fields[0].target, "Vec<String>");
}

#[test]
fn java_backend_conventions() {
    let mut g = CodeGenerator::new(Lang::Java, &java_templates()).unwrap();
    let td = TypeDef {
        name: Some("order_item".to_string()),
        constraints: vec![Constraint::Fields(
            vec![decl("item_count", named("int")), decl("label", named("string"))],
            true,
        )],
    };
    let out = g.generate_code_for(&vec![td]).unwrap();
    // Java places files by package, no module index
    assert!(out.modules.is_none());
    assert_eq!(out.files.len(), 1);
    let f = &out.files[0];
    assert_eq!(f.template, "class.templ");
    assert_eq!(f.stem, "OrderItem");
    assert_eq!(f.extension, "java");
    assert_eq!(f.target_kind_name, "OrderItem");
    assert_eq!(f.fields[0].name, "itemCount");
    assert_eq!(f.fields[0].target, "long");
    assert_eq!(f.fields[1].name, "label");
    assert_eq!(f.fields[1].target, "String");
}

#[test]
fn shape_conflict_names_both_kinds() {
    let mut g = CodeGenerator::new(Lang::Rust, &rust_templates()).unwrap();
    let td = TypeDef {
        name: Some("foo".to_string()),
        constraints: vec![
            Constraint::WholeType(named("string")),
            Constraint::Fields(
                vec![decl("source", named("string")), decl("destination", named("string"))],
                false,
            ),
        ],
    };
    let err = g.generate_code_for(&vec![td]).unwrap_err();
    assert!(matches!(
        err,
        CodeGenError::ShapeConflict { prior: ShapeKind::Value, current: ShapeKind::Struct }
    ));
}

#[test]
fn conflict_writes_no_file_for_the_type() {
    let mut g = CodeGenerator::new(Lang::Rust, &rust_templates()).unwrap();
    let td = TypeDef {
        name: Some("foo".to_string()),
        constraints: vec![
            Constraint::ElementType(named("int")),
            Constraint::WholeType(named("int")),
        ],
    };
    assert!(g.generate_code_for(&vec![td]).is_err());
}

#[test]
fn undetermined_shape_is_fatal() {
    let mut g = CodeGenerator::new(Lang::Rust, &rust_templates()).unwrap();
    let td = TypeDef { name: Some("bare".to_string()), constraints: vec![Constraint::Other] };
    let err = g.generate_code_for(&vec![td]).unwrap_err();
    assert!(matches!(err, CodeGenError::UndeterminedShape));
}

#[test]
fn unknown_constraints_are_ignored() {
    let mut g = CodeGenerator::new(Lang::Rust, &rust_templates()).unwrap();
    let td = TypeDef {
        name: Some("UserId".to_string()),
        constraints: vec![Constraint::Other, Constraint::WholeType(named("int")), Constraint::Other],
    };
    let out = g.generate_code_for(&vec![td]).unwrap();
    assert_eq!(out.files.len(), 1);
    assert_eq!(out.files[0].template, "value.templ");
    assert_eq!(out.files[0].fields.len(), 1);
}

#[test]
fn type_import_is_unsupported() {
    let mut g = CodeGenerator::new(Lang::Rust, &rust_templates()).unwrap();
    let td = TypeDef {
        name: Some("uses_import".to_string()),
        constraints: vec![Constraint::WholeType(TypeRef::TypeImport)],
    };
    let err = g.generate_code_for(&vec![td]).unwrap_err();
    assert!(matches!(err, CodeGenError::UnsupportedTypeImport));
}

#[test]
fn non_builtin_reference_is_imported_once() {
    let mut g = CodeGenerator::new(Lang::Rust, &rust_templates()).unwrap();
    let td = TypeDef {
        name: Some("Order".to_string()),
        constraints: vec![Constraint::Fields(
            vec![
                decl("customer", named("customer_profile")),
                decl("count", named("int")),
                decl("backup", named("customer_profile")),
            ],
            false,
        )],
    };
    let out = g.generate_code_for(&vec![td]).unwrap();
    let f = &out.files[0];
    // one entry per non-built-in reference, in order, no deduplication
    let imports: Vec<&str> = f.imports.iter().map(|x| x.name.as_str()).collect();
    assert_eq!(imports, vec!["customer_profile", "customer_profile"]);
    assert_eq!(f.fields[0].target, "CustomerProfile");
}

#[test]
fn anonymous_types_numbered_depth_first() {
    let mut g = CodeGenerator::new(Lang::Rust, &rust_templates()).unwrap();
    let nested_inner = TypeDef {
        name: None,
        constraints: vec![Constraint::Fields(vec![decl("street", named("string"))], false)],
    };
    let nested_outer = TypeDef {
        name: None,
        constraints: vec![Constraint::Fields(
            vec![decl("inner", TypeRef::Anonymous(Box::new(nested_inner)))],
            false,
        )],
    };
    let td = TypeDef {
        name: Some("Customer".to_string()),
        constraints: vec![Constraint::Fields(
            vec![
                decl("name", named("string")),
                decl("address", TypeRef::Anonymous(Box::new(nested_outer))),
            ],
            false,
        )],
    };
    let out = g.generate_code_for(&vec![td]).unwrap();
    // depth-first pre-order allocation: outer address type is first, its
    // nested child second; files are planned children before parents
    assert_eq!(out.files.len(), 3);
    assert_eq!(out.files[0].target_kind_name, "AnonymousType2");
    assert_eq!(out.files[1].target_kind_name, "AnonymousType1");
    assert_eq!(out.files[2].target_kind_name, "Customer");
    // the parent imports its anonymous child by the synthesized name
    let imports: Vec<&str> = out.files[2].imports.iter().map(|x| x.name.as_str()).collect();
    assert_eq!(imports, vec!["AnonymousType1"]);
    // only the first top-level definition is root
    assert!(out.files[2].is_root);
    assert!(!out.files[0].is_root);
    assert!(!out.files[1].is_root);
}

#[test]
fn anonymous_counter_not_reset_between_schemas() {
    let mut g = CodeGenerator::new(Lang::Rust, &rust_templates()).unwrap();
    let schema_a = vec![TypeDef {
        name: Some("A".to_string()),
        constraints: vec![Constraint::ElementType(TypeRef::Anonymous(Box::new(TypeDef {
            name: None,
            constraints: vec![Constraint::WholeType(named("int"))],
        })))],
    }];
    let schema_b = vec![TypeDef {
        name: Some("B".to_string()),
        constraints: vec![Constraint::ElementType(TypeRef::Anonymous(Box::new(TypeDef {
            name: None,
            constraints: vec![Constraint::WholeType(named("int"))],
        })))],
    }];
    let out_a = g.generate_code_for(&schema_a).unwrap();
    let out_b = g.generate_code_for(&schema_b).unwrap();
    assert_eq!(out_a.files[0].target_kind_name, "AnonymousType1");
    assert_eq!(out_b.files[0].target_kind_name, "AnonymousType2");
    // each schema's first definition is its root
    assert!(out_a.files[1].is_root);
    assert!(out_b.files[1].is_root);
}

#[test]
fn builtins_never_imported_nor_given_files() {
    let mut g = CodeGenerator::new(Lang::Rust, &rust_templates()).unwrap();
    let td = TypeDef {
        name: Some("AllBuiltins".to_string()),
        constraints: vec![Constraint::Fields(
            vec![
                decl("a", named("int")),
                decl("b", named("string")),
                decl("c", named("bool")),
                decl("d", named("float")),
                decl("e", named("symbol")),
                decl("f", named("blob")),
                decl("g", named("clob")),
            ],
            false,
        )],
    };
    let out = g.generate_code_for(&vec![td]).unwrap();
    assert_eq!(out.files.len(), 1);
    assert!(out.files[0].imports.is_empty());
}

#[test]
fn module_index_lists_every_stem_children_first() {
    let mut g = CodeGenerator::new(Lang::Rust, &rust_templates()).unwrap();
    let td_a = TypeDef {
        name: Some("Wrapper".to_string()),
        constraints: vec![Constraint::WholeType(TypeRef::Anonymous(Box::new(TypeDef {
            name: None,
            constraints: vec![Constraint::WholeType(named("int"))],
        })))],
    };
    let td_b = TypeDef {
        name: Some("Plain".to_string()),
        constraints: vec![Constraint::WholeType(named("string"))],
    };
    let out = g.generate_code_for(&vec![td_a, td_b]).unwrap();
    let modules = out.modules.unwrap();
    let stems: Vec<&str> = out.files.iter().map(|f| f.stem.as_str()).collect();
    let listed: Vec<&str> = modules.iter().map(|m| m.as_str()).collect();
    assert_eq!(listed, stems);
    // the anonymous child's stem precedes its referencing parent's
    assert_eq!(listed, vec!["anonymous_type_1", "wrapper", "plain"]);
}

#[test]
fn missing_template_fails_at_construction() {
    let incomplete = vec!["value.templ".to_string(), "struct.templ".to_string()];
    let err = CodeGenerator::new(Lang::Rust, &incomplete).unwrap_err();
    match err {
        CodeGenError::MissingTemplate(k) => assert_eq!(k, "sequence.templ"),
        _ => panic!("expected a missing-template error"),
    }
    assert!(CodeGenerator::new(Lang::Rust, &rust_templates()).is_ok());
    assert!(CodeGenerator::new(Lang::Java, &java_templates()).is_ok());
    // Java needs no module index template
    assert!(CodeGenerator::new(Lang::Java, &rust_templates()).is_err());
}

#[test]
fn open_and_closed_struct_contents_both_resolve() {
    let mut g = CodeGenerator::new(Lang::Rust, &rust_templates()).unwrap();
    let open_td = TypeDef {
        name: Some("OpenOne".to_string()),
        constraints: vec![Constraint::Fields(vec![decl("x", named("int"))], false)],
    };
    let closed_td = TypeDef {
        name: Some("ClosedOne".to_string()),
        constraints: vec![Constraint::Fields(vec![decl("x", named("int"))], true)],
    };
    let out = g.generate_code_for(&vec![open_td, closed_td]).unwrap();
    assert_eq!(out.files.len(), 2);
    assert_eq!(out.files[0].template, "struct.templ");
    assert_eq!(out.files[1].template, "struct.templ");
}

#[test]
fn struct_shapes_with_differing_closed_flags_are_compatible() {
    // the consistency check compares shape kinds only: two fields
    // constraints are both structures, whatever their closed flags, and
    // the first constraint fixes the shape
    let mut g = CodeGenerator::new(Lang::Rust, &rust_templates()).unwrap();
    let td = TypeDef {
        name: Some("Merged".to_string()),
        constraints: vec![
            Constraint::Fields(vec![decl("a", named("int"))], false),
            Constraint::Fields(vec![decl("b", named("string"))], true),
        ],
    };
    let out = g.generate_code_for(&vec![td]).unwrap();
    assert_eq!(out.files.len(), 1);
    let f = &out.files[0];
    assert_eq!(f.template, "struct.templ");
    // fields of both constraints are kept, in order
    let names: Vec<&str> = f.fields.iter().map(|x| x.name.as_str()).collect();
    assert_eq!(names, vec!["a", "b"]);
}

#[test]
fn repeated_whole_type_constraints_keep_first_shape() {
    let mut g = CodeGenerator::new(Lang::Rust, &rust_templates()).unwrap();
    let td = TypeDef {
        name: Some("Twice".to_string()),
        constraints: vec![
            Constraint::WholeType(named("int")),
            Constraint::WholeType(named("string")),
        ],
    };
    let out = g.generate_code_for(&vec![td]).unwrap();
    assert_eq!(out.files.len(), 1);
    let f = &out.files[0];
    assert_eq!(f.template, "value.templ");
    assert_eq!(f.fields.len(), 2);
    assert_eq!(f.fields[0].target, "i64");
    assert_eq!(f.fields[1].target, "String");
}
