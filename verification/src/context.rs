//! The per-type-definition accumulator: the one inferred shape, the ordered
//! field list and the import list gathered while the constraints are
//! walked.
use vstd::prelude::*;

use crate::model::{kind_of, CodeGenError, ErrV, Shape, ShapeV};

verus! {

/// One member of a rendered type: its name, the schema type name it came
/// from, and the target type name it maps to.
#[derive(Debug)]
pub struct Field {
    pub name: String,
    pub source: String,
    pub target: String,
}

/// The ghost value of a `Field`.
#[verifier::ext_equal]
pub struct FieldV {
    pub name: Seq<char>,
    pub source: Seq<char>,
    pub target: Seq<char>,
}

impl Field {
    pub open spec fn view(self) -> FieldV {
        FieldV { name: self.name@, source: self.source@, target: self.target@ }
    }
}

/// A type name a rendered file must reference. Imports are recorded in
/// reference order and never deduplicated.
#[derive(Debug)]
pub struct Import {
    pub name: String,
}

/// The accumulator for one type definition being resolved.
#[derive(Debug)]
pub struct CodeGenContext {
    /// The one shape inferred so far, if any constraint established one.
    pub abstract_data_type: Option<Shape>,
    /// The ordered members gathered so far.
    pub fields: Vec<Field>,
    /// The ordered imports gathered so far.
    pub imports: Vec<Import>,
}

/// The ghost value of a `CodeGenContext`.
#[verifier::ext_equal]
pub struct CtxV {
    pub shape: Option<ShapeV>,
    pub fields: Seq<FieldV>,
    pub imports: Seq<Seq<char>>,
}

/// The ghost value of a field list.
pub open spec fn fields_view(s: Seq<Field>) -> Seq<FieldV> {
    Seq::new(s.len(), |i: int| s[i]@)
}

/// The ghost value of an import list.
pub open spec fn imports_view(s: Seq<Import>) -> Seq<Seq<char>> {
    Seq::new(s.len(), |i: int| s[i].name@)
}

/// The ghost value of an optional shape.
pub open spec fn opt_shape_view(o: Option<Shape>) -> Option<ShapeV> {
    match o {
        Option::None => Option::None,
        Option::Some(s) => Option::Some(s@),
    }
}

/// The ghost value of the whole accumulator.
pub open spec fn ctx_view(c: CodeGenContext) -> CtxV {
    CtxV {
        shape: opt_shape_view(c.abstract_data_type),
        fields: fields_view(c.fields@),
        imports: imports_view(c.imports@),
    }
}

/// What establishing a shape yields: the first established shape is kept;
/// a later shape of another kind is a conflict naming both kinds.
pub open spec fn sp_check_shape(cur: Option<ShapeV>, incoming: ShapeV) -> Result<ShapeV, ErrV> {
    match cur {
        Option::None => Result::Ok(incoming),
        Option::Some(s) => {
            if kind_of(s) == kind_of(incoming) {
                Result::Ok(s)
            } else {
                Result::Err(
                    ErrV::ShapeConflict { prior: kind_of(s), current: kind_of(incoming) },
                )
            }
        },
    }
}

impl CodeGenContext {
    /// A fresh accumulator with no shape, no fields and no imports.
    pub fn new() -> (c: CodeGenContext)
        ensures
            ctx_view(c) == (CtxV {
                shape: Option::<ShapeV>::None,
                fields: Seq::<FieldV>::empty(),
                imports: Seq::<Seq<char>>::empty(),
            }),
    {
        let c = CodeGenContext { abstract_data_type: Option::None, fields: Vec::new(), imports: Vec::new() };
        proof {
            assert(fields_view(c.fields@) =~= Seq::<FieldV>::empty());
            assert(imports_view(c.imports@) =~= Seq::<Seq<char>>::empty());
            assert(ctx_view(c) =~= (CtxV {
                shape: Option::<ShapeV>::None,
                fields: Seq::<FieldV>::empty(),
                imports: Seq::<Seq<char>>::empty(),
            }));
        }
        c
    }
}

} // verus!
