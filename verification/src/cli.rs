//! The decisions behind the command-line surface: which subcommand runner a
//! name selects, what the generate command is called, and the project
//! scaffold planned once per full authority run with test generation on.
use vstd::prelude::*;

use crate::backend::{spec_requires_modules, Lang};
use crate::text::str_eq;

verus! {

/// The schema subcommands that have a registered runner.
#[derive(Clone, Copy, PartialEq, Eq, Structural, Debug)]
pub enum SchemaSubcommand {
    Load,
    Validate,
}

/// The runner a schema subcommand name selects, if any is registered.
pub fn runner_for_schema_subcommand(command_name: &str) -> (r: Option<SchemaSubcommand>)
    ensures
        command_name@ == "load"@ ==> r == Option::Some(SchemaSubcommand::Load),
        command_name@ == "validate"@ ==> r == Option::Some(SchemaSubcommand::Validate),
        command_name@ != "load"@ && command_name@ != "validate"@ ==> r is None,
{
    proof {
        reveal_strlit("load");
        reveal_strlit("validate");
        assert("load"@.len() != "validate"@.len());
    }
    if str_eq(command_name, "load") {
        Option::Some(SchemaSubcommand::Load)
    } else if str_eq(command_name, "validate") {
        Option::Some(SchemaSubcommand::Validate)
    } else {
        Option::None
    }
}

/// The command that generates code from schema files.
pub struct GenerateCommand;

impl GenerateCommand {
    /// The name the command is invoked by.
    pub fn name(&self) -> (r: &'static str)
        ensures
            r@ == "generate"@,
    {
        "generate"
    }

    /// The one-line description of the command.
    pub fn about(&self) -> (r: &'static str)
        ensures
            r@ == "Generates code using given schema file."@,
    {
        "Generates code using given schema file."
    }
}

/// One file of the project scaffold rendered once per full authority run:
/// the template to render and the file it is written to.
#[derive(Debug)]
pub struct ScaffoldFile {
    pub template: String,
    pub file_name: String,
}

/// The project scaffold for a target language: a target with a module index
/// gets a manifest and an entry point, rendered once at the end of an
/// authority-wide run; a target without one scaffolds through an external
/// build tool instead and gets no templates here.
pub fn project_scaffold(lang: Lang) -> (r: Vec<ScaffoldFile>)
    ensures
        spec_requires_modules(lang) ==> r@.len() == 2 && r@[0].template@ == "Cargo.toml.templ"@
            && r@[0].file_name@ == "Cargo.toml"@ && r@[1].template@ == "lib.templ"@
            && r@[1].file_name@ == "lib.rs"@,
        !spec_requires_modules(lang) ==> r@.len() == 0,
{
    let mut v: Vec<ScaffoldFile> = Vec::new();
    if lang.requires_modules() {
        v.push(
            ScaffoldFile {
                template: "Cargo.toml.templ".to_owned(),
                file_name: "Cargo.toml".to_owned(),
            },
        );
        v.push(ScaffoldFile { template: "lib.templ".to_owned(), file_name: "lib.rs".to_owned() });
    }
    v
}

} // verus!
