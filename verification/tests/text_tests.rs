use code_gen_core::casing::{camel, snake, upper_camel};
use code_gen_core::cli::{project_scaffold, runner_for_schema_subcommand, GenerateCommand, SchemaSubcommand};
use code_gen_core::backend::Lang;
use code_gen_core::text::{canonical_fn_name, make_anon_name, str_eq, test_input_name, u64_to_dec};

#[test]
fn decimal_rendering_exact() {
    assert_eq!(u64_to_dec(0), "0");
    assert_eq!(u64_to_dec(7), "7");
    assert_eq!(u64_to_dec(10), "10");
    assert_eq!(u64_to_dec(305), "305");
    assert_eq!(u64_to_dec(u64::MAX), "18446744073709551615");
}

#[test]
fn anon_names_are_sequential_words() {
    assert_eq!(make_anon_name(1), "AnonymousType1");
    assert_eq!(make_anon_name(42), "AnonymousType42");
}

#[test]
fn canonical_name_replaces_delimiters() {
    assert_eq!(
        canonical_fn_name("test_roundtrip_generated_code_nested type.isl"),
        "test_roundtrip_generated_code_nested_type_isl"
    );
    assert_eq!(canonical_fn_name("a-b:c/d\\e f.g*h"), "a_b_c_d_e_f_g_h");
    assert_eq!(canonical_fn_name("untouched_name"), "untouched_name");
}

#[test]
fn schema_id_maps_to_ion_input_name() {
    assert_eq!(test_input_name("struct_with_fields.isl"), "struct_with_fields.ion");
    assert_eq!(test_input_name("no_extension"), "no_extension");
    assert_eq!(test_input_name("isl.isl"), "ion.ion");
}

#[test]
fn string_equality_is_by_contents() {
    assert!(str_eq("abc", &"abc".to_string()));
    assert!(!str_eq("abc", "abd"));
    assert!(!str_eq("abc", "ab"));
}

#[test]
fn casing_filters_convert() {
    // each would fail if the conversion handed its argument back unchanged
    assert_eq!(upper_camel("hello_world"), "HelloWorld");
    assert_eq!(camel("hello_world"), "helloWorld");
    assert_eq!(snake("HelloWorld"), "hello_world");
    assert_eq!(upper_camel("nested_struct"), "NestedStruct");
}

#[test]
fn subcommand_runners_registered() {
    assert_eq!(runner_for_schema_subcommand("load"), Some(SchemaSubcommand::Load));
    assert_eq!(runner_for_schema_subcommand("validate"), Some(SchemaSubcommand::Validate));
    assert_eq!(runner_for_schema_subcommand("generate"), None);
}

#[test]
fn generate_command_metadata() {
    let cmd = GenerateCommand;
    assert_eq!(cmd.name(), "generate");
    assert_eq!(cmd.about(), "Generates code using given schema file.");
}

#[test]
fn scaffold_only_for_module_targets() {
    let rust_scaffold = project_scaffold(Lang::Rust);
    assert_eq!(rust_scaffold.len(), 2);
    assert_eq!(rust_scaffold[0].template, "Cargo.toml.templ");
    assert_eq!(rust_scaffold[0].file_name, "Cargo.toml");
    assert_eq!(rust_scaffold[1].template, "lib.templ");
    assert_eq!(rust_scaffold[1].file_name, "lib.rs");
    assert!(project_scaffold(Lang::Java).is_empty());
}

#[test]
fn language_names_dispatch() {
    assert_eq!(Lang::from_name("rust"), Some(Lang::Rust));
    assert_eq!(Lang::from_name("java"), Some(Lang::Java));
    assert_eq!(Lang::from_name("python"), None);
}
