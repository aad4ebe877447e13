use code_gen_core::backend::Lang;
use code_gen_core::generator::CodeGenerator;
use code_gen_core::model::{Constraint, FieldDecl, TypeDef, TypeRef};

fn rust_templates() -> Vec<String> {
    vec![
        "value.templ".to_string(),
        "sequence.templ".to_string(),
        "struct.templ".to_string(),
        "mod.templ".to_string(),
    ]
}

fn struct_with_fields_schema() -> Vec<TypeDef> {
    vec![TypeDef {
        name: Some("struct_with_fields".to_string()),
        constraints: vec![Constraint::Fields(
            vec![
                FieldDecl { name: "a".to_string(), type_ref: TypeRef::Named("int".to_string()) },
                FieldDecl { name: "b".to_string(), type_ref: TypeRef::Named("string".to_string()) },
                FieldDecl { name: "c".to_string(), type_ref: TypeRef::Named("bool".to_string()) },
            ],
            false,
        )],
    }]
}

#[test]
fn sample_document_embedded_verbatim() {
    let sample = "{a:5, b:\"hello\", c:true}";
    let mut g = CodeGenerator::new(Lang::Rust, &rust_templates()).unwrap();
    let out = g.generate_code_with_tests_for(&struct_with_fields_schema(), sample.to_string()).unwrap();
    assert_eq!(out.files.len(), 1);
    let f = &out.files[0];
    assert_eq!(f.template, "struct.templ");
    // the sample is passed through unparsed for the template to embed
    assert_eq!(f.sample.as_deref(), Some(sample));
    let names: Vec<&str> = f.fields.iter().map(|x| x.name.as_str()).collect();
    assert_eq!(names, vec!["a", "b", "c"]);
}

#[test]
fn sample_document_round_trips_under_ion_equality() {
    // the law the generated round-trip test scaffold checks: decoding the
    // sample and re-encoding it yields an equal value under the data
    // format's own equality
    let sample = "{a:5, b:\"hello\", c:true}";
    let before = ion_rs::Element::read_one(sample).unwrap();
    let encoded: String = before.encode_as(ion_rs::v1_0::Text).unwrap();
    let after = ion_rs::Element::read_one(encoded).unwrap();
    assert_eq!(before, after);
}

#[test]
fn nested_struct_plan_matches_nested_sample() {
    let sample = "{a:\"hello\", b:{c:12}}";
    let schema = vec![TypeDef {
        name: Some("nested_struct".to_string()),
        constraints: vec![Constraint::Fields(
            vec![
                FieldDecl { name: "a".to_string(), type_ref: TypeRef::Named("string".to_string()) },
                FieldDecl {
                    name: "b".to_string(),
                    type_ref: TypeRef::Anonymous(Box::new(TypeDef {
                        name: None,
                        constraints: vec![Constraint::Fields(
                            vec![FieldDecl {
                                name: "c".to_string(),
                                type_ref: TypeRef::Named("int".to_string()),
                            }],
                            false,
                        )],
                    })),
                },
            ],
            false,
        )],
    }];
    let mut g = CodeGenerator::new(Lang::Rust, &rust_templates()).unwrap();
    let out = g.generate_code_with_tests_for(&schema, sample.to_string()).unwrap();
    // the anonymous nested struct gets its own file, before its parent,
    // and both embed the same sample
    assert_eq!(out.files.len(), 2);
    assert_eq!(out.files[0].target_kind_name, "AnonymousType1");
    assert_eq!(out.files[1].target_kind_name, "NestedStruct");
    assert_eq!(out.files[0].sample.as_deref(), Some(sample));
    assert_eq!(out.files[1].sample.as_deref(), Some(sample));
    // and the sample itself round-trips under the format's equality
    let before = ion_rs::Element::read_one(sample).unwrap();
    let encoded: String = before.encode_as(ion_rs::v1_0::Text).unwrap();
    let after = ion_rs::Element::read_one(encoded).unwrap();
    assert_eq!(before, after);
}

#[test]
fn test_mode_still_lists_modules() {
    let sample = "{a:5, b:\"hello\", c:true}";
    let mut g = CodeGenerator::new(Lang::Rust, &rust_templates()).unwrap();
    let out = g.generate_code_with_tests_for(&struct_with_fields_schema(), sample.to_string()).unwrap();
    let modules = out.modules.unwrap();
    assert_eq!(modules, vec!["struct_with_fields".to_string()]);
}
