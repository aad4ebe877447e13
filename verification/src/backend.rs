//! The per-target-language capability table: scalar type mapping, sequence
//! wrapper, built-in predicates, file naming, and template selection. One
//! instance per supported language; no shared state between them.
use vstd::prelude::*;

use crate::casing::{camel, camel_of, snake, snake_of, upper_camel, upper_camel_of};
use crate::model::ShapeKind;
use crate::text::str_eq;

verus! {

/// A supported target language.
#[derive(Clone, Copy, PartialEq, Eq, Structural, Debug)]
pub enum Lang {
    Rust,
    Java,
}

/// Whether a name is one of the seven fixed built-in primitive names of the
/// schema language.
pub open spec fn is_builtin_isl(s: Seq<char>) -> bool {
    ||| s == "int"@
    ||| s == "string"@
    ||| s == "bool"@
    ||| s == "float"@
    ||| s == "symbol"@
    ||| s == "blob"@
    ||| s == "clob"@
}

/// The target type name a schema type name maps to: the scalar table for
/// the built-in primitives, the upper-camel form of the name otherwise.
pub open spec fn target_type_of(lang: Lang, s: Seq<char>) -> Seq<char> {
    match lang {
        Lang::Rust => {
            if s == "int"@ {
                "i64"@
            } else if s == "string"@ || s == "symbol"@ {
                "String"@
            } else if s == "bool"@ {
                "bool"@
            } else if s == "float"@ {
                "f64"@
            } else if s == "blob"@ || s == "clob"@ {
                "Vec<u8>"@
            } else {
                upper_camel_of(s)
            }
        },
        Lang::Java => {
            if s == "int"@ {
                "long"@
            } else if s == "string"@ || s == "symbol"@ {
                "String"@
            } else if s == "bool"@ {
                "boolean"@
            } else if s == "float"@ {
                "double"@
            } else if s == "blob"@ || s == "clob"@ {
                "byte[]"@
            } else {
                upper_camel_of(s)
            }
        },
    }
}

/// The target collection type wrapping a sequence of the given element
/// type.
pub open spec fn sequence_type_of(lang: Lang, elem: Seq<char>) -> Seq<char> {
    match lang {
        Lang::Rust => "Vec<"@ + elem + ">"@,
        Lang::Java => "ArrayList<"@ + elem + ">"@,
    }
}

/// The file stem for a generated type: the target's idiomatic file casing
/// applied to the type name.
pub open spec fn file_stem_of(lang: Lang, name: Seq<char>) -> Seq<char> {
    match lang {
        Lang::Rust => snake_of(name),
        Lang::Java => upper_camel_of(name),
    }
}

/// The idiomatic casing of a member name in the target language.
pub open spec fn member_case_of(lang: Lang, name: Seq<char>) -> Seq<char> {
    match lang {
        Lang::Rust => snake_of(name),
        Lang::Java => camel_of(name),
    }
}

/// The template file used for a shape kind in the target language.
pub open spec fn template_of(lang: Lang, kind: ShapeKind) -> Seq<char> {
    match lang {
        Lang::Rust => match kind {
            ShapeKind::Value => "value.templ"@,
            ShapeKind::Sequence => "sequence.templ"@,
            ShapeKind::Struct => "struct.templ"@,
        },
        Lang::Java => match kind {
            ShapeKind::Value => "value.templ"@,
            ShapeKind::Sequence => "sequence.templ"@,
            ShapeKind::Struct => "class.templ"@,
        },
    }
}

/// The extension of a generated source file.
pub open spec fn extension_of(lang: Lang) -> Seq<char> {
    match lang {
        Lang::Rust => "rs"@,
        Lang::Java => "java"@,
    }
}

/// Whether the target language needs an aggregating module index listing
/// every generated file.
pub open spec fn spec_requires_modules(lang: Lang) -> bool {
    match lang {
        Lang::Rust => true,
        Lang::Java => false,
    }
}

impl Lang {
    /// The language a command-line name selects, if any.
    pub fn from_name(name: &str) -> (r: Option<Lang>)
        ensures
            name@ == "rust"@ ==> r == Option::Some(Lang::Rust),
            name@ == "java"@ ==> r == Option::Some(Lang::Java),
            name@ != "rust"@ && name@ != "java"@ ==> r is None,
    {
        proof {
            reveal_strlit("rust");
            reveal_strlit("java");
            assert("rust"@[0] == 'r');
            assert("java"@[0] == 'j');
            assert("rust"@ != "java"@);
        }
        if str_eq(name, "rust") {
            Option::Some(Lang::Rust)
        } else if str_eq(name, "java") {
            Option::Some(Lang::Java)
        } else {
            Option::None
        }
    }

    /// Maps a schema type name to the target type name.
    pub fn target_type(&self, name: &str) -> (r: String)
        ensures
            r@ == target_type_of(*self, name@),
    {
        match self {
            Lang::Rust => {
                if str_eq(name, "int") {
                    "i64".to_owned()
                } else if str_eq(name, "string") || str_eq(name, "symbol") {
                    "String".to_owned()
                } else if str_eq(name, "bool") {
                    "bool".to_owned()
                } else if str_eq(name, "float") {
                    "f64".to_owned()
                } else if str_eq(name, "blob") || str_eq(name, "clob") {
                    "Vec<u8>".to_owned()
                } else {
                    upper_camel(name)
                }
            },
            Lang::Java => {
                if str_eq(name, "int") {
                    "long".to_owned()
                } else if str_eq(name, "string") || str_eq(name, "symbol") {
                    "String".to_owned()
                } else if str_eq(name, "bool") {
                    "boolean".to_owned()
                } else if str_eq(name, "float") {
                    "double".to_owned()
                } else if str_eq(name, "blob") || str_eq(name, "clob") {
                    "byte[]".to_owned()
                } else {
                    upper_camel(name)
                }
            },
        }
    }

    /// Wraps an element type in the target's sequence collection type.
    pub fn target_type_as_sequence(&self, elem: &str) -> (r: String)
        ensures
            r@ == sequence_type_of(*self, elem@),
    {
        match self {
            Lang::Rust => {
                let mut s: String = "Vec<".to_owned();
                s.append(elem);
                s.append(">");
                s
            },
            Lang::Java => {
                let mut s: String = "ArrayList<".to_owned();
                s.append(elem);
                s.append(">");
                s
            },
        }
    }

    /// The file stem used for a generated type name.
    pub fn file_name_for_type(&self, name: &str) -> (r: String)
        ensures
            r@ == file_stem_of(*self, name@),
    {
        match self {
            Lang::Rust => snake(name),
            Lang::Java => upper_camel(name),
        }
    }

    /// The idiomatic member-name casing of the target language.
    pub fn member_name(&self, name: &str) -> (r: String)
        ensures
            r@ == member_case_of(*self, name@),
    {
        match self {
            Lang::Rust => snake(name),
            Lang::Java => camel(name),
        }
    }

    /// The template file registered for a shape kind.
    pub fn template_name(&self, kind: ShapeKind) -> (r: String)
        ensures
            r@ == template_of(*self, kind),
    {
        match self {
            Lang::Rust => match kind {
                ShapeKind::Value => "value.templ".to_owned(),
                ShapeKind::Sequence => "sequence.templ".to_owned(),
                ShapeKind::Struct => "struct.templ".to_owned(),
            },
            Lang::Java => match kind {
                ShapeKind::Value => "value.templ".to_owned(),
                ShapeKind::Sequence => "sequence.templ".to_owned(),
                ShapeKind::Struct => "class.templ".to_owned(),
            },
        }
    }

    /// The extension of a generated source file.
    pub fn file_extension(&self) -> (r: String)
        ensures
            r@ == extension_of(*self),
    {
        match self {
            Lang::Rust => "rs".to_owned(),
            Lang::Java => "java".to_owned(),
        }
    }

    /// Whether the target needs an aggregating module index.
    pub fn requires_modules(&self) -> (r: bool)
        ensures
            r == spec_requires_modules(*self),
    {
        match self {
            Lang::Rust => true,
            Lang::Java => false,
        }
    }

    /// Whether a target type name is built in for this language: such a
    /// name needs no import in a generated file.
    pub fn is_built_in_type(&self, name: &str) -> (r: bool)
        ensures
            r == is_builtin_target(*self, name@),
    {
        match self {
            Lang::Rust => str_eq(name, "i64") || str_eq(name, "String") || str_eq(name, "bool")
                || str_eq(name, "f64") || str_eq(name, "Vec<u8>"),
            Lang::Java => str_eq(name, "long") || str_eq(name, "String") || str_eq(name, "boolean")
                || str_eq(name, "double") || str_eq(name, "byte[]"),
        }
    }
}

/// Whether a target type name is built in for the language.
pub open spec fn is_builtin_target(lang: Lang, s: Seq<char>) -> bool {
    match lang {
        Lang::Rust => s == "i64"@ || s == "String"@ || s == "bool"@ || s == "f64"@ || s
            == "Vec<u8>"@,
        Lang::Java => s == "long"@ || s == "String"@ || s == "boolean"@ || s == "double"@ || s
            == "byte[]"@,
    }
}

} // verus!
