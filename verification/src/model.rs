//! The data model of the schema-to-code pipeline: type definitions as the
//! loader hands them over, the shape inferred for each definition, and the
//! error taxonomy of the resolution stage.
use vstd::prelude::*;

verus! {

/// A reference to a type inside a constraint.
#[derive(Debug)]
pub enum TypeRef {
    /// A reference to a type by name (a built-in primitive or another
    /// schema-defined type).
    Named(String),
    /// An inline type definition without a name of its own.
    Anonymous(Box<TypeDef>),
    /// A reference into another schema. Unsupported by design.
    TypeImport,
}

/// One `name: type` entry of a `Fields` constraint. Order is significant.
#[derive(Debug)]
pub struct FieldDecl {
    pub name: String,
    pub type_ref: TypeRef,
}

/// One constraint of a type definition. Only three kinds are interpreted;
/// everything else is `Other` and ignored by design.
#[derive(Debug)]
pub enum Constraint {
    /// The whole value has the referenced type.
    WholeType(TypeRef),
    /// The value is a sequence whose elements have the referenced type.
    ElementType(TypeRef),
    /// The value is a structure with the given ordered fields; the flag says
    /// whether the field list is closed.
    Fields(Vec<FieldDecl>, bool),
    /// A constraint kind the generator does not interpret.
    Other,
}

/// One type definition of a schema: an optional name and its ordered
/// constraints.
#[derive(Debug)]
pub struct TypeDef {
    pub name: Option<String>,
    pub constraints: Vec<Constraint>,
}

/// The classification a type definition resolves to, with its payload.
#[derive(Debug)]
pub enum Shape {
    /// A wrapper around a single value of the given target type.
    Value(String),
    /// A wrapper around a sequence with the given target element type.
    Sequence(String),
    /// A structure; the flag says whether its content is closed.
    Struct(bool),
}

/// The kind of a `Shape`, without its payload. Two constraints conflict
/// exactly when they imply different kinds.
#[derive(Clone, Copy, PartialEq, Eq, Structural, Debug)]
pub enum ShapeKind {
    Value,
    Sequence,
    Struct,
}

/// Why a run of the generator failed.
#[derive(Debug)]
pub enum CodeGenError {
    /// Two constraints implied different shape kinds; both are named.
    ShapeConflict { prior: ShapeKind, current: ShapeKind },
    /// No constraint established a shape for the type definition.
    UndeterminedShape,
    /// The type definition references another schema, which is unsupported.
    UnsupportedTypeImport,
    /// A required template was not registered; the key is named.
    MissingTemplate(String),
}

/// The ghost value of a `Shape`, with string payloads as character sequences.
pub enum ShapeV {
    Value(Seq<char>),
    Sequence(Seq<char>),
    Struct(bool),
}

/// The ghost value of a `CodeGenError`.
pub enum ErrV {
    ShapeConflict { prior: ShapeKind, current: ShapeKind },
    UndeterminedShape,
    UnsupportedTypeImport,
    MissingTemplate(Seq<char>),
}

impl Shape {
    pub open spec fn view(self) -> ShapeV {
        match self {
            Shape::Value(t) => ShapeV::Value(t@),
            Shape::Sequence(t) => ShapeV::Sequence(t@),
            Shape::Struct(c) => ShapeV::Struct(c),
        }
    }

    /// The kind of this shape.
    pub fn kind(&self) -> (k: ShapeKind)
        ensures
            k == kind_of(self@),
    {
        match self {
            Shape::Value(_) => ShapeKind::Value,
            Shape::Sequence(_) => ShapeKind::Sequence,
            Shape::Struct(_) => ShapeKind::Struct,
        }
    }
}

pub open spec fn kind_of(s: ShapeV) -> ShapeKind {
    match s {
        ShapeV::Value(_) => ShapeKind::Value,
        ShapeV::Sequence(_) => ShapeKind::Sequence,
        ShapeV::Struct(_) => ShapeKind::Struct,
    }
}

impl CodeGenError {
    pub open spec fn view(self) -> ErrV {
        match self {
            CodeGenError::ShapeConflict { prior, current } => ErrV::ShapeConflict {
                prior,
                current,
            },
            CodeGenError::UndeterminedShape => ErrV::UndeterminedShape,
            CodeGenError::UnsupportedTypeImport => ErrV::UnsupportedTypeImport,
            CodeGenError::MissingTemplate(k) => ErrV::MissingTemplate(k@),
        }
    }
}

/// The ghost value of an optional string.
pub open spec fn opt_str_view(o: Option<String>) -> Option<Seq<char>> {
    match o {
        Option::None => Option::None,
        Option::Some(s) => Option::Some(s@),
    }
}

/// How many anonymous type definitions a reference encloses, itself included.
pub open spec fn anon_count_ref(r: TypeRef) -> nat
    decreases r, 0int,
{
    match r {
        TypeRef::Named(_) => 0,
        TypeRef::TypeImport => 0,
        TypeRef::Anonymous(d) => anon_count_td(*d),
    }
}

/// How many anonymous type definitions the field declarations from `j` on
/// enclose.
pub open spec fn anon_count_fields(pairs: Seq<FieldDecl>, j: int) -> nat
    decreases pairs, pairs.len() - j,
{
    if j < 0 || j >= pairs.len() {
        0
    } else {
        anon_count_ref(pairs[j].type_ref) + anon_count_fields(pairs, j + 1)
    }
}

/// How many anonymous type definitions a constraint encloses.
pub open spec fn anon_count_c(c: Constraint) -> nat
    decreases c, 0int,
{
    match c {
        Constraint::WholeType(r) => anon_count_ref(r),
        Constraint::ElementType(r) => anon_count_ref(r),
        Constraint::Fields(pairs, _) => anon_count_fields(pairs@, 0),
        Constraint::Other => 0,
    }
}

/// How many anonymous type definitions the constraints from `i` on enclose.
pub open spec fn anon_count_cs(cs: Seq<Constraint>, i: int) -> nat
    decreases cs, cs.len() - i,
{
    if i < 0 || i >= cs.len() {
        0
    } else {
        anon_count_c(cs[i]) + anon_count_cs(cs, i + 1)
    }
}

/// How many anonymous type definitions a type definition encloses, itself
/// included when it has no name.
pub open spec fn anon_count_td(td: TypeDef) -> nat
    decreases td, 1int,
{
    (if td.name is None {
        1nat
    } else {
        0nat
    }) + anon_count_cs(td.constraints@, 0)
}

/// How many anonymous type definitions the type definitions from `i` on
/// enclose.
pub open spec fn anon_count_tds(tds: Seq<TypeDef>, i: int) -> nat
    decreases tds, tds.len() - i,
{
    if i < 0 || i >= tds.len() {
        0
    } else {
        anon_count_td(tds[i]) + anon_count_tds(tds, i + 1)
    }
}

} // verus!
