//! The generator: walks a schema's type definitions, infers one shape per
//! definition, resolves anonymous nested definitions depth-first, and plans
//! one rendered file per definition. The ghost functions here are the exact
//! semantics of the pipeline; every executable function mirrors them.
use vstd::prelude::*;

use crate::backend::{
    extension_of, file_stem_of, is_builtin_isl, member_case_of, sequence_type_of,
    spec_requires_modules, target_type_of, template_of, Lang,
};
use crate::casing::{upper_camel, upper_camel_of};
use crate::context::{
    ctx_view, fields_view, imports_view, sp_check_shape, CodeGenContext, CtxV, Field, FieldV,
    Import,
};
use crate::model::{
    anon_count_c, anon_count_cs, anon_count_fields, anon_count_ref, anon_count_td, anon_count_tds,
    kind_of, opt_str_view, CodeGenError, Constraint, ErrV, FieldDecl, Shape, ShapeV, TypeDef,
    TypeRef,
};
use crate::text::{anon_name, make_anon_name, str_eq};

verus! {

/// One planned output file: which template to render, the file name, and
/// the full render context the template is given.
#[derive(Debug)]
pub struct GeneratedFile {
    /// The template file to render, as registered with the renderer.
    pub template: String,
    /// The stem of the output file, in the target's file casing.
    pub stem: String,
    /// The extension of the output file.
    pub extension: String,
    /// The type name, in upper camel case.
    pub target_kind_name: String,
    /// The members, names in the target's idiomatic case.
    pub fields: Vec<Field>,
    /// The non-built-in type names the file references, in reference order.
    pub imports: Vec<Import>,
    /// Whether this is the first top-level definition of its schema.
    pub is_root: bool,
    /// A sample document to embed verbatim in a generated round-trip test,
    /// when test generation is on.
    pub sample: Option<String>,
}

/// The ghost value of a `GeneratedFile`.
#[verifier::ext_equal]
pub struct FileV {
    pub template: Seq<char>,
    pub stem: Seq<char>,
    pub extension: Seq<char>,
    pub target_kind_name: Seq<char>,
    pub fields: Seq<FieldV>,
    pub imports: Seq<Seq<char>>,
    pub is_root: bool,
    pub sample: Option<Seq<char>>,
}

impl GeneratedFile {
    pub open spec fn view(self) -> FileV {
        FileV {
            template: self.template@,
            stem: self.stem@,
            extension: self.extension@,
            target_kind_name: self.target_kind_name@,
            fields: fields_view(self.fields@),
            imports: imports_view(self.imports@),
            is_root: self.is_root,
            sample: opt_str_view(self.sample),
        }
    }
}

/// The ghost value of a file list.
pub open spec fn files_view(s: Seq<GeneratedFile>) -> Seq<FileV> {
    Seq::new(s.len(), |i: int| s[i]@)
}

/// The ghost value of a string list.
pub open spec fn strings_view(s: Seq<String>) -> Seq<Seq<char>> {
    Seq::new(s.len(), |i: int| s[i]@)
}

/// The stems of a list of planned files, in order.
pub open spec fn stems_of(files: Seq<FileV>) -> Seq<Seq<char>> {
    Seq::new(files.len(), |i: int| files[i].stem)
}

/// What resolving one type reference yields: the target type name, the
/// source type name, the imports it records, the counter afterwards, the
/// files planned for nested anonymous definitions, and the anonymous names
/// allocated, in allocation order.
#[verifier::ext_equal]
pub struct RefOutV {
    pub target: Seq<char>,
    pub source: Seq<char>,
    pub imports: Seq<Seq<char>>,
    pub cnt: int,
    pub files: Seq<FileV>,
    pub anons: Seq<Seq<char>>,
}

/// What one step of constraint resolution yields: the accumulator
/// afterwards, the counter afterwards, the files planned underneath, and
/// the anonymous names allocated.
#[verifier::ext_equal]
pub struct StepV {
    pub ctx: CtxV,
    pub cnt: int,
    pub files: Seq<FileV>,
    pub anons: Seq<Seq<char>>,
}

/// What generating one type definition yields: its resolved name, the
/// counter afterwards, every file planned (its own file last), and the
/// anonymous names allocated.
#[verifier::ext_equal]
pub struct TdOutV {
    pub name: Seq<char>,
    pub cnt: int,
    pub files: Seq<FileV>,
    pub anons: Seq<Seq<char>>,
}

/// What generating one whole schema yields.
#[verifier::ext_equal]
pub struct RunV {
    pub cnt: int,
    pub files: Seq<FileV>,
    pub anons: Seq<Seq<char>>,
}

/// The members of a context, re-cased for rendering: member names move to
/// the target's idiomatic case.
pub open spec fn cased_fields(lang: Lang, fs: Seq<FieldV>) -> Seq<FieldV> {
    Seq::new(
        fs.len(),
        |i: int|
            FieldV {
                name: member_case_of(lang, fs[i].name),
                source: fs[i].source,
                target: fs[i].target,
            },
    )
}

/// The file planned for one resolved type definition.
pub open spec fn file_for(
    lang: Lang,
    name: Seq<char>,
    shape: ShapeV,
    ctx: CtxV,
    root: bool,
    sample: Option<Seq<char>>,
) -> FileV {
    FileV {
        template: template_of(lang, kind_of(shape)),
        stem: file_stem_of(lang, name),
        extension: extension_of(lang),
        target_kind_name: upper_camel_of(name),
        fields: cased_fields(lang, ctx.fields),
        imports: ctx.imports,
        is_root: root,
        sample,
    }
}

/// Resolving a type reference. A named reference maps through the scalar
/// table and records an import unless it names a built-in primitive. An
/// anonymous definition allocates the next counter value, is generated in
/// full before the reference returns, and records an import for the
/// synthesized name. A cross-schema import is unsupported.
pub open spec fn sp_ref(lang: Lang, r: TypeRef, cnt: int, sample: Option<Seq<char>>) -> Result<
    RefOutV,
    ErrV,
>
    decreases r, 0int,
{
    match r {
        TypeRef::Named(n) => Result::Ok(
            RefOutV {
                target: target_type_of(lang, n@),
                source: n@,
                imports: if is_builtin_isl(n@) {
                    Seq::empty()
                } else {
                    seq![n@]
                },
                cnt,
                files: Seq::empty(),
                anons: Seq::empty(),
            },
        ),
        TypeRef::TypeImport => Result::Err(ErrV::UnsupportedTypeImport),
        TypeRef::Anonymous(d) => match sp_gen_td(lang, *d, cnt, false, sample) {
            Result::Err(e) => Result::Err(e),
            Result::Ok(o) => Result::Ok(
                RefOutV {
                    target: o.name,
                    source: o.name,
                    imports: seq![o.name],
                    cnt: o.cnt,
                    files: o.files,
                    anons: o.anons,
                },
            ),
        },
    }
}

/// Resolving the field declarations of a `Fields` constraint from `j` on:
/// each reference is resolved and one member per declaration is appended,
/// in declared order.
pub open spec fn sp_fields(
    lang: Lang,
    pairs: Seq<FieldDecl>,
    j: int,
    ctx: CtxV,
    cnt: int,
    sample: Option<Seq<char>>,
) -> Result<StepV, ErrV>
    decreases pairs, pairs.len() - j,
{
    if j < 0 || j >= pairs.len() {
        Result::Ok(StepV { ctx, cnt, files: Seq::empty(), anons: Seq::empty() })
    } else {
        match sp_ref(lang, pairs[j].type_ref, cnt, sample) {
            Result::Err(e) => Result::Err(e),
            Result::Ok(ro) => {
                let ctx1 = CtxV {
                    shape: ctx.shape,
                    fields: ctx.fields.push(
                        FieldV { name: pairs[j].name@, source: ro.source, target: ro.target },
                    ),
                    imports: ctx.imports + ro.imports,
                };
                match sp_fields(lang, pairs, j + 1, ctx1, ro.cnt, sample) {
                    Result::Err(e) => Result::Err(e),
                    Result::Ok(st) => Result::Ok(
                        StepV {
                            ctx: st.ctx,
                            cnt: st.cnt,
                            files: ro.files + st.files,
                            anons: ro.anons + st.anons,
                        },
                    ),
                }
            },
        }
    }
}

/// Resolving one constraint against the accumulator. A whole-value type
/// sets the value shape and appends the one synthetic `value` member; an
/// element type sets the sequence shape and appends the `value` member with
/// the wrapped collection type; a fields constraint sets the struct shape
/// and appends one member per declaration; any other constraint is ignored
/// by design.
pub open spec fn sp_constraint(
    lang: Lang,
    c: Constraint,
    ctx: CtxV,
    cnt: int,
    sample: Option<Seq<char>>,
) -> Result<StepV, ErrV>
    decreases c, 0int,
{
    match c {
        Constraint::Other => Result::Ok(
            StepV { ctx, cnt, files: Seq::empty(), anons: Seq::empty() },
        ),
        Constraint::WholeType(r) => match sp_ref(lang, r, cnt, sample) {
            Result::Err(e) => Result::Err(e),
            Result::Ok(ro) => match sp_check_shape(ctx.shape, ShapeV::Value(ro.target)) {
                Result::Err(e) => Result::Err(e),
                Result::Ok(sh) => Result::Ok(
                    StepV {
                        ctx: CtxV {
                            shape: Option::Some(sh),
                            fields: ctx.fields.push(
                                FieldV { name: "value"@, source: ro.source, target: ro.target },
                            ),
                            imports: ctx.imports + ro.imports,
                        },
                        cnt: ro.cnt,
                        files: ro.files,
                        anons: ro.anons,
                    },
                ),
            },
        },
        Constraint::ElementType(r) => match sp_ref(lang, r, cnt, sample) {
            Result::Err(e) => Result::Err(e),
            Result::Ok(ro) => match sp_check_shape(ctx.shape, ShapeV::Sequence(ro.target)) {
                Result::Err(e) => Result::Err(e),
                Result::Ok(sh) => Result::Ok(
                    StepV {
                        ctx: CtxV {
                            shape: Option::Some(sh),
                            fields: ctx.fields.push(
                                FieldV {
                                    name: "value"@,
                                    source: ro.source,
                                    target: sequence_type_of(lang, ro.target),
                                },
                            ),
                            imports: ctx.imports + ro.imports,
                        },
                        cnt: ro.cnt,
                        files: ro.files,
                        anons: ro.anons,
                    },
                ),
            },
        },
        Constraint::Fields(pairs, closed) => match sp_check_shape(
            ctx.shape,
            ShapeV::Struct(closed),
        ) {
            Result::Err(e) => Result::Err(e),
            Result::Ok(sh) => sp_fields(
                lang,
                pairs@,
                0,
                CtxV { shape: Option::Some(sh), fields: ctx.fields, imports: ctx.imports },
                cnt,
                sample,
            ),
        },
    }
}

/// Resolving the constraints of a type definition from `i` on, in order.
pub open spec fn sp_constraints(
    lang: Lang,
    cs: Seq<Constraint>,
    i: int,
    ctx: CtxV,
    cnt: int,
    sample: Option<Seq<char>>,
) -> Result<StepV, ErrV>
    decreases cs, cs.len() - i,
{
    if i < 0 || i >= cs.len() {
        Result::Ok(StepV { ctx, cnt, files: Seq::empty(), anons: Seq::empty() })
    } else {
        match sp_constraint(lang, cs[i], ctx, cnt, sample) {
            Result::Err(e) => Result::Err(e),
            Result::Ok(st1) => match sp_constraints(lang, cs, i + 1, st1.ctx, st1.cnt, sample) {
                Result::Err(e) => Result::Err(e),
                Result::Ok(st2) => Result::Ok(
                    StepV {
                        ctx: st2.ctx,
                        cnt: st2.cnt,
                        files: st1.files + st2.files,
                        anons: st1.anons + st2.anons,
                    },
                ),
            },
        }
    }
}

/// Generating one type definition. A nameless definition allocates the next
/// counter value and is named after it. The constraints are walked in
/// order; afterwards exactly one shape must have been established, and one
/// file is planned for the definition itself, after every file of its
/// anonymous children.
pub open spec fn sp_gen_td(
    lang: Lang,
    td: TypeDef,
    cnt: int,
    root: bool,
    sample: Option<Seq<char>>,
) -> Result<TdOutV, ErrV>
    decreases td, 0int,
{
    let nm = if td.name is Some {
        td.name->0@
    } else {
        anon_name((cnt + 1) as nat)
    };
    let c1 = if td.name is Some {
        cnt
    } else {
        cnt + 1
    };
    let a0: Seq<Seq<char>> = if td.name is Some {
        Seq::empty()
    } else {
        seq![nm]
    };
    match sp_constraints(
        lang,
        td.constraints@,
        0,
        CtxV { shape: Option::None, fields: Seq::empty(), imports: Seq::empty() },
        c1,
        sample,
    ) {
        Result::Err(e) => Result::Err(e),
        Result::Ok(st) => match st.ctx.shape {
            Option::None => Result::Err(ErrV::UndeterminedShape),
            Option::Some(sh) => Result::Ok(
                TdOutV {
                    name: nm,
                    cnt: st.cnt,
                    files: st.files.push(file_for(lang, nm, sh, st.ctx, root, sample)),
                    anons: a0 + st.anons,
                },
            ),
        },
    }
}

/// Generating one schema's type definitions from `i` on. Only the first
/// definition of the schema is the root.
pub open spec fn sp_schema(
    lang: Lang,
    tds: Seq<TypeDef>,
    i: int,
    cnt: int,
    sample: Option<Seq<char>>,
) -> Result<RunV, ErrV>
    decreases tds, tds.len() - i,
{
    if i < 0 || i >= tds.len() {
        Result::Ok(RunV { cnt, files: Seq::empty(), anons: Seq::empty() })
    } else {
        match sp_gen_td(lang, tds[i], cnt, i == 0, sample) {
            Result::Err(e) => Result::Err(e),
            Result::Ok(o) => match sp_schema(lang, tds, i + 1, o.cnt, sample) {
                Result::Err(e) => Result::Err(e),
                Result::Ok(rest) => Result::Ok(
                    RunV {
                        cnt: rest.cnt,
                        files: o.files + rest.files,
                        anons: o.anons + rest.anons,
                    },
                ),
            },
        }
    }
}


/// The anonymous names allocated by a run that starts at counter value
/// `cnt` and allocates `n` names: `AnonymousType<cnt+1>` through
/// `AnonymousType<cnt+n>`, in order.
pub open spec fn anon_range(cnt: int, n: nat) -> Seq<Seq<char>> {
    Seq::new(n, |k: int| anon_name((cnt + 1 + k) as nat))
}

proof fn lemma_anon_range_concat(cnt: int, n1: nat, n2: nat)
    ensures
        anon_range(cnt, n1) + anon_range(cnt + n1, n2) =~= anon_range(cnt, (n1 + n2) as nat),
{
}

proof fn lemma_anon_range_cons(cnt: int, n: nat)
    ensures
        seq![anon_name((cnt + 1) as nat)] + anon_range(cnt + 1, n) =~= anon_range(
            cnt,
            (n + 1) as nat,
        ),
{
}

/// On success, resolving a reference advances the counter by exactly the
/// number of anonymous definitions it encloses, and allocates exactly the
/// next names in order.
pub proof fn lemma_cnt_ref(lang: Lang, r: TypeRef, cnt: int, sample: Option<Seq<char>>)
    ensures
        sp_ref(lang, r, cnt, sample) matches Result::Ok(ro) ==> ro.cnt == cnt + anon_count_ref(r)
            && ro.anons == anon_range(cnt, anon_count_ref(r)),
    decreases r, 0int,
{
    match r {
        TypeRef::Named(_) => {
            assert(anon_range(cnt, 0) =~= Seq::<Seq<char>>::empty());
        },
        TypeRef::TypeImport => {
        },
        TypeRef::Anonymous(d) => {
            lemma_cnt_td(lang, *d, cnt, false, sample);
        },
    }
}

/// On success, resolving field declarations advances the counter by exactly
/// the number of anonymous definitions they enclose, and allocates exactly
/// the next names in order.
pub proof fn lemma_cnt_fields(
    lang: Lang,
    pairs: Seq<FieldDecl>,
    j: int,
    ctx: CtxV,
    cnt: int,
    sample: Option<Seq<char>>,
)
    ensures
        sp_fields(lang, pairs, j, ctx, cnt, sample) matches Result::Ok(st) ==> st.cnt == cnt
            + anon_count_fields(pairs, j) && st.anons == anon_range(
            cnt,
            anon_count_fields(pairs, j),
        ),
    decreases pairs, pairs.len() - j,
{
    if j < 0 || j >= pairs.len() {
        assert(anon_range(cnt, 0) =~= Seq::<Seq<char>>::empty());
    } else {
        lemma_cnt_ref(lang, pairs[j].type_ref, cnt, sample);
        match sp_ref(lang, pairs[j].type_ref, cnt, sample) {
            Result::Err(_) => {},
            Result::Ok(ro) => {
                let ctx1 = CtxV {
                    shape: ctx.shape,
                    fields: ctx.fields.push(
                        FieldV { name: pairs[j].name@, source: ro.source, target: ro.target },
                    ),
                    imports: ctx.imports + ro.imports,
                };
                lemma_cnt_fields(lang, pairs, j + 1, ctx1, ro.cnt, sample);
                match sp_fields(lang, pairs, j + 1, ctx1, ro.cnt, sample) {
                    Result::Err(_) => {},
                    Result::Ok(st2) => {
                        lemma_anon_range_concat(
                            cnt,
                            anon_count_ref(pairs[j].type_ref),
                            anon_count_fields(pairs, j + 1),
                        );
                    },
                }
            },
        }
    }
}

/// On success, resolving one constraint advances the counter by exactly the
/// number of anonymous definitions it encloses, and allocates exactly the
/// next names in order.
pub proof fn lemma_cnt_c(lang: Lang, c: Constraint, ctx: CtxV, cnt: int, sample: Option<Seq<char>>)
    ensures
        sp_constraint(lang, c, ctx, cnt, sample) matches Result::Ok(st) ==> st.cnt == cnt
            + anon_count_c(c) && st.anons == anon_range(cnt, anon_count_c(c)),
    decreases c, 0int,
{
    match c {
        Constraint::Other => {
            assert(anon_range(cnt, 0) =~= Seq::<Seq<char>>::empty());
        },
        Constraint::WholeType(r) => {
            lemma_cnt_ref(lang, r, cnt, sample);
        },
        Constraint::ElementType(r) => {
            lemma_cnt_ref(lang, r, cnt, sample);
        },
        Constraint::Fields(pairs, closed) => {
            match sp_check_shape(ctx.shape, ShapeV::Struct(closed)) {
                Result::Err(_) => {},
                Result::Ok(sh) => {
                    lemma_cnt_fields(
                        lang,
                        pairs@,
                        0,
                        CtxV { shape: Option::Some(sh), fields: ctx.fields, imports: ctx.imports },
                        cnt,
                        sample,
                    );
                },
            }
        },
    }
}

/// On success, resolving a constraint list advances the counter by exactly
/// the number of anonymous definitions it encloses, and allocates exactly
/// the next names in order.
pub proof fn lemma_cnt_cs(
    lang: Lang,
    cs: Seq<Constraint>,
    i: int,
    ctx: CtxV,
    cnt: int,
    sample: Option<Seq<char>>,
)
    ensures
        sp_constraints(lang, cs, i, ctx, cnt, sample) matches Result::Ok(st) ==> st.cnt == cnt
            + anon_count_cs(cs, i) && st.anons == anon_range(cnt, anon_count_cs(cs, i)),
    decreases cs, cs.len() - i,
{
    if i < 0 || i >= cs.len() {
        assert(anon_range(cnt, 0) =~= Seq::<Seq<char>>::empty());
    } else {
        lemma_cnt_c(lang, cs[i], ctx, cnt, sample);
        match sp_constraint(lang, cs[i], ctx, cnt, sample) {
            Result::Err(_) => {},
            Result::Ok(st1) => {
                lemma_cnt_cs(lang, cs, i + 1, st1.ctx, st1.cnt, sample);
                match sp_constraints(lang, cs, i + 1, st1.ctx, st1.cnt, sample) {
                    Result::Err(_) => {},
                    Result::Ok(st2) => {
                        lemma_anon_range_concat(cnt, anon_count_c(cs[i]), anon_count_cs(cs, i + 1));
                    },
                }
            },
        }
    }
}

/// On success, generating a type definition advances the counter by exactly
/// the number of anonymous definitions it encloses, and the names
/// allocated are exactly `AnonymousType<cnt+1>` onward, in depth-first
/// encounter order.
pub proof fn lemma_cnt_td(lang: Lang, td: TypeDef, cnt: int, root: bool, sample: Option<Seq<char>>)
    ensures
        sp_gen_td(lang, td, cnt, root, sample) matches Result::Ok(o) ==> o.cnt == cnt
            + anon_count_td(td) && o.anons == anon_range(cnt, anon_count_td(td)),
    decreases td, 1int,
{
    let c1: int = if td.name is Some {
        cnt
    } else {
        cnt + 1
    };
    let ctx0 = CtxV {
        shape: Option::<ShapeV>::None,
        fields: Seq::<FieldV>::empty(),
        imports: Seq::<Seq<char>>::empty(),
    };
    lemma_cnt_cs(lang, td.constraints@, 0, ctx0, c1, sample);
    match sp_constraints(lang, td.constraints@, 0, ctx0, c1, sample) {
        Result::Err(_) => {},
        Result::Ok(st) => {
            if td.name is Some {
            } else {
                lemma_anon_range_cons(cnt, anon_count_cs(td.constraints@, 0));
            }
        },
    }
}

/// On success, generating a schema advances the counter by exactly the
/// number of anonymous definitions its type definitions enclose, and the
/// names allocated are exactly the next ones, in order.
pub proof fn lemma_cnt_schema(
    lang: Lang,
    tds: Seq<TypeDef>,
    i: int,
    cnt: int,
    sample: Option<Seq<char>>,
)
    ensures
        sp_schema(lang, tds, i, cnt, sample) matches Result::Ok(run) ==> run.cnt == cnt
            + anon_count_tds(tds, i) && run.anons == anon_range(cnt, anon_count_tds(tds, i)),
    decreases tds, tds.len() - i,
{
    if i < 0 || i >= tds.len() {
        assert(anon_range(cnt, 0) =~= Seq::<Seq<char>>::empty());
    } else {
        lemma_cnt_td(lang, tds[i], cnt, i == 0, sample);
        match sp_gen_td(lang, tds[i], cnt, i == 0, sample) {
            Result::Err(_) => {},
            Result::Ok(o) => {
                lemma_cnt_schema(lang, tds, i + 1, o.cnt, sample);
                match sp_schema(lang, tds, i + 1, o.cnt, sample) {
                    Result::Err(_) => {},
                    Result::Ok(rest) => {
                        lemma_anon_range_concat(cnt, anon_count_td(tds[i]), anon_count_tds(tds, i + 1));
                    },
                }
            },
        }
    }
}


/// The orchestrator of one generation run: its target language, the
/// monotonically increasing counter naming anonymous type definitions
/// (never reset between schemas processed by the same instance), and the
/// sample document embedded in generated tests, when test generation is on.
#[derive(Debug)]
pub struct CodeGenerator {
    pub lang: Lang,
    pub anonymous_type_counter: u64,
    pub current_test_input: Option<String>,
}

/// What one schema's generation produces: the planned files in generation
/// order (children before their referencing parent), and, for a target
/// that requires it, the module index listing every planned file's stem in
/// the same order.
#[derive(Debug)]
pub struct SchemaOutput {
    pub files: Vec<GeneratedFile>,
    pub modules: Option<Vec<String>>,
}

impl CodeGenerator {
    /// Whether a name is one of the seven fixed built-in primitive names of
    /// the schema language.
    pub fn is_built_in_isl_type(&self, name: &str) -> (r: bool)
        ensures
            r == is_builtin_isl(name@),
    {
        str_eq(name, "int") || str_eq(name, "string") || str_eq(name, "bool") || str_eq(
            name,
            "float",
        ) || str_eq(name, "symbol") || str_eq(name, "blob") || str_eq(name, "clob")
    }

    /// Checks the one new shape against the accumulator: the first
    /// established shape fixes the kind; a later shape of another kind is a
    /// conflict naming both kinds.
    pub fn verify_abstract_data_type_consistency(
        &self,
        current_abstract_data_type: Shape,
        code_gen_context: &mut CodeGenContext,
    ) -> (res: Result<(), CodeGenError>)
        ensures
            match res {
                Result::Ok(_) => {
                    &&& sp_check_shape(
                        ctx_view(*old(code_gen_context)).shape,
                        current_abstract_data_type@,
                    ) matches Result::Ok(sh)
                    &&& ctx_view(*final(code_gen_context)) == (CtxV {
                        shape: Option::Some(sh),
                        fields: ctx_view(*old(code_gen_context)).fields,
                        imports: ctx_view(*old(code_gen_context)).imports,
                    })
                },
                Result::Err(e) => {
                    &&& sp_check_shape(
                        ctx_view(*old(code_gen_context)).shape,
                        current_abstract_data_type@,
                    ) matches Result::Err(ev)
                    &&& e@ == ev
                    &&& *final(code_gen_context) == *old(code_gen_context)
                },
            },
    {
        match &code_gen_context.abstract_data_type {
            Option::Some(prior) => {
                let pk = prior.kind();
                let ck = current_abstract_data_type.kind();
                if pk != ck {
                    Result::Err(CodeGenError::ShapeConflict { prior: pk, current: ck })
                } else {
                    proof {
                        assert(ctx_view(*code_gen_context) =~= (CtxV {
                            shape: ctx_view(*code_gen_context).shape,
                            fields: ctx_view(*code_gen_context).fields,
                            imports: ctx_view(*code_gen_context).imports,
                        }));
                    }
                    Result::Ok(())
                }
            },
            Option::None => {
                code_gen_context.abstract_data_type = Option::Some(current_abstract_data_type);
                proof {
                    assert(ctx_view(*code_gen_context) =~= (CtxV {
                        shape: Option::Some(current_abstract_data_type@),
                        fields: ctx_view(*old(code_gen_context)).fields,
                        imports: ctx_view(*old(code_gen_context)).imports,
                    }));
                }
                Result::Ok(())
            },
        }
    }

    /// Appends one member with the given field name, schema type name and
    /// target type name.
    pub fn generate_struct_field(
        &self,
        tera_fields: &mut Vec<Field>,
        abstract_data_type_name: String,
        isl_type_name: String,
        field_name: &str,
    )
        ensures
            fields_view(final(tera_fields)@) =~= fields_view(old(tera_fields)@).push(
                FieldV {
                    name: field_name@,
                    source: isl_type_name@,
                    target: abstract_data_type_name@,
                },
            ),
    {
        tera_fields.push(
            Field {
                name: field_name.to_owned(),
                source: isl_type_name,
                target: abstract_data_type_name,
            },
        );
    }

    /// Plans the output file for one resolved type definition: selects the
    /// template for the inferred shape, cases the type name, the file stem
    /// and the member names, and carries the imports, the root flag and the
    /// sample document into the render context.
    #[verifier::loop_isolation(false)]
    pub fn render_generated_code(
        &self,
        files: &mut Vec<GeneratedFile>,
        abstract_data_type_name: &str,
        shape: &Shape,
        is_root: bool,
        code_gen_context: &CodeGenContext,
    )
        ensures
            files_view(final(files)@) =~= files_view(old(files)@).push(
                file_for(
                    self.lang,
                    abstract_data_type_name@,
                    shape@,
                    ctx_view(*code_gen_context),
                    is_root,
                    opt_str_view(self.current_test_input),
                ),
            ),
    {
        let template = self.lang.template_name(shape.kind());
        let stem = self.lang.file_name_for_type(abstract_data_type_name);
        let extension = self.lang.file_extension();
        let target_kind_name = upper_camel(abstract_data_type_name);
        let mut cased: Vec<Field> = Vec::new();
        let mut k: usize = 0;
        let n = code_gen_context.fields.len();
        while k < n
            invariant
                n == code_gen_context.fields@.len(),
                k <= n,
                cased@.len() == k,
                fields_view(cased@) =~= cased_fields(
                    self.lang,
                    fields_view(code_gen_context.fields@),
                ).take(k as int),
            decreases n - k,
        {
            let f = &code_gen_context.fields[k];
            cased.push(
                Field {
                    name: self.lang.member_name(f.name.as_str()),
                    source: f.source.clone(),
                    target: f.target.clone(),
                },
            );
            k = k + 1;
            proof {
                let fs = fields_view(code_gen_context.fields@);
                assert(cased@[k - 1]@ == cased_fields(self.lang, fs)[k - 1]) by {
                    assert(fs[k - 1] == code_gen_context.fields@[k - 1]@);
                }
                assert(fields_view(cased@) =~= cased_fields(self.lang, fs).take(k as int));
            }
        }
        let mut imports: Vec<Import> = Vec::new();
        let mut k2: usize = 0;
        let n2 = code_gen_context.imports.len();
        while k2 < n2
            invariant
                n2 == code_gen_context.imports@.len(),
                k2 <= n2,
                imports@.len() == k2,
                imports_view(imports@) =~= imports_view(code_gen_context.imports@).take(k2 as int),
            decreases n2 - k2,
        {
            imports.push(Import { name: code_gen_context.imports[k2].name.clone() });
            k2 = k2 + 1;
            proof {
                assert(imports_view(imports@) =~= imports_view(code_gen_context.imports@).take(
                    k2 as int,
                ));
            }
        }
        let sample: Option<String> = match &self.current_test_input {
            Option::None => Option::None,
            Option::Some(s) => Option::Some(s.clone()),
        };
        let file = GeneratedFile {
            template,
            stem,
            extension,
            target_kind_name,
            fields: cased,
            imports,
            is_root,
            sample,
        };
        proof {
            assert(fields_view(file.fields@) =~= cased_fields(
                self.lang,
                fields_view(code_gen_context.fields@),
            ));
            assert(imports_view(file.imports@) =~= imports_view(code_gen_context.imports@));
            assert(file@ =~= file_for(
                self.lang,
                abstract_data_type_name@,
                shape@,
                ctx_view(*code_gen_context),
                is_root,
                opt_str_view(self.current_test_input),
            ));
        }
        files.push(file);
    }
}


impl CodeGenerator {
    /// Resolves one type reference to its target type name and source type
    /// name. A named reference records an import unless it names a built-in
    /// primitive. An anonymous nested definition is generated in full,
    /// depth-first, before this returns; its synthesized name is recorded
    /// as an import and returned. A cross-schema import fails fast.
    #[verifier::loop_isolation(false)]
    fn type_reference_name(
        &mut self,
        isl_type_ref: &TypeRef,
        files: &mut Vec<GeneratedFile>,
        imports: &mut Vec<Import>,
    ) -> (res: Result<(String, String), CodeGenError>)
        requires
            old(self).anonymous_type_counter + anon_count_ref(*isl_type_ref) <= u64::MAX,
        ensures
            final(self).lang == old(self).lang,
            final(self).current_test_input == old(self).current_test_input,
            final(self).anonymous_type_counter >= old(self).anonymous_type_counter,
            match res {
                Result::Ok(pair) => {
                    &&& sp_ref(
                        old(self).lang,
                        *isl_type_ref,
                        old(self).anonymous_type_counter as int,
                        opt_str_view(old(self).current_test_input),
                    ) matches Result::Ok(ro)
                    &&& pair.0@ == ro.target
                    &&& pair.1@ == ro.source
                    &&& final(self).anonymous_type_counter as int == ro.cnt
                    &&& files_view(final(files)@) == files_view(old(files)@) + ro.files
                    &&& imports_view(final(imports)@) == imports_view(old(imports)@) + ro.imports
                },
                Result::Err(e) => {
                    &&& sp_ref(
                        old(self).lang,
                        *isl_type_ref,
                        old(self).anonymous_type_counter as int,
                        opt_str_view(old(self).current_test_input),
                    ) matches Result::Err(ev)
                    &&& e@ == ev
                },
            },
        decreases *isl_type_ref,
    {
        match isl_type_ref {
            TypeRef::Named(name) => {
                let ghost imports0 = imports_view(imports@);
                if !self.is_built_in_isl_type(name.as_str()) {
                    imports.push(Import { name: name.clone() });
                    proof {
                        assert(imports_view(imports@) =~= imports0 + seq![name@]);
                    }
                } else {
                    proof {
                        assert(imports_view(imports@) =~= imports0 + Seq::<Seq<char>>::empty());
                    }
                }
                let target = self.lang.target_type(name.as_str());
                proof {
                    assert(files_view(files@) =~= files_view(files@) + Seq::<FileV>::empty());
                }
                Result::Ok((target, name.clone()))
            },
            TypeRef::TypeImport => Result::Err(CodeGenError::UnsupportedTypeImport),
            TypeRef::Anonymous(type_def) => {
                proof {
                    assert(anon_count_ref(*isl_type_ref) == anon_count_td(**type_def));
                }
                let name = match self.generate_abstract_data_type(files, &**type_def, false) {
                    Result::Ok(n) => n,
                    Result::Err(e) => {
                        return Result::Err(e);
                    },
                };
                let ghost imports0 = imports_view(imports@);
                imports.push(Import { name: name.clone() });
                proof {
                    assert(imports_view(imports@) =~= imports0 + seq![name@]);
                }
                Result::Ok((name.clone(), name))
            },
        }
    }

    /// Maps one constraint onto the accumulator: resolves its references
    /// (generating anonymous children first), checks shape consistency, and
    /// appends the members the constraint contributes, in declared order.
    /// Uninterpreted constraint kinds are ignored by design.
    #[verifier::loop_isolation(false)]
    fn map_constraint_to_abstract_data_type(
        &mut self,
        files: &mut Vec<GeneratedFile>,
        constraint: &Constraint,
        code_gen_context: &mut CodeGenContext,
    ) -> (res: Result<(), CodeGenError>)
        requires
            old(self).anonymous_type_counter + anon_count_c(*constraint) <= u64::MAX,
        ensures
            final(self).lang == old(self).lang,
            final(self).current_test_input == old(self).current_test_input,
            final(self).anonymous_type_counter >= old(self).anonymous_type_counter,
            match res {
                Result::Ok(_) => {
                    &&& sp_constraint(
                        old(self).lang,
                        *constraint,
                        ctx_view(*old(code_gen_context)),
                        old(self).anonymous_type_counter as int,
                        opt_str_view(old(self).current_test_input),
                    ) matches Result::Ok(st)
                    &&& ctx_view(*final(code_gen_context)) == st.ctx
                    &&& final(self).anonymous_type_counter as int == st.cnt
                    &&& files_view(final(files)@) == files_view(old(files)@) + st.files
                },
                Result::Err(e) => {
                    &&& sp_constraint(
                        old(self).lang,
                        *constraint,
                        ctx_view(*old(code_gen_context)),
                        old(self).anonymous_type_counter as int,
                        opt_str_view(old(self).current_test_input),
                    ) matches Result::Err(ev)
                    &&& e@ == ev
                },
            },
        decreases *constraint,
    {
        let ghost lang0 = self.lang;
        let ghost sample0 = opt_str_view(self.current_test_input);
        let ghost cnt00 = self.anonymous_type_counter as int;
        let ghost ctx00 = ctx_view(*code_gen_context);
        match constraint {
            Constraint::Other => {
                proof {
                    assert(files_view(files@) =~= files_view(files@) + Seq::<FileV>::empty());
                }
                Result::Ok(())
            },
            Constraint::WholeType(isl_type) => {
                let pair = match self.type_reference_name(isl_type, files, &mut code_gen_context.imports) {
                    Result::Ok(p) => p,
                    Result::Err(e) => {
                        return Result::Err(e);
                    },
                };
                let (type_name_str, source_name) = pair;
                let ghost ro = sp_ref(lang0, *isl_type, cnt00, sample0)->Ok_0;
                match self.verify_abstract_data_type_consistency(
                    Shape::Value(type_name_str.clone()),
                    code_gen_context,
                ) {
                    Result::Err(e) => {
                        return Result::Err(e);
                    },
                    Result::Ok(_) => {},
                }
                self.generate_struct_field(
                    &mut code_gen_context.fields,
                    type_name_str,
                    source_name,
                    "value",
                );
                proof {
                    reveal_strlit("value");
                    let st = sp_constraint(lang0, *constraint, ctx00, cnt00, sample0)->Ok_0;
                    assert(ctx_view(*code_gen_context) =~= st.ctx);
                }
                Result::Ok(())
            },
            Constraint::ElementType(isl_type) => {
                let pair = match self.type_reference_name(isl_type, files, &mut code_gen_context.imports) {
                    Result::Ok(p) => p,
                    Result::Err(e) => {
                        return Result::Err(e);
                    },
                };
                let (type_name_str, source_name) = pair;
                let ghost ro = sp_ref(lang0, *isl_type, cnt00, sample0)->Ok_0;
                match self.verify_abstract_data_type_consistency(
                    Shape::Sequence(type_name_str.clone()),
                    code_gen_context,
                ) {
                    Result::Err(e) => {
                        return Result::Err(e);
                    },
                    Result::Ok(_) => {},
                }
                let wrapped = self.lang.target_type_as_sequence(type_name_str.as_str());
                self.generate_struct_field(
                    &mut code_gen_context.fields,
                    wrapped,
                    source_name,
                    "value",
                );
                proof {
                    reveal_strlit("value");
                    let st = sp_constraint(lang0, *constraint, ctx00, cnt00, sample0)->Ok_0;
                    assert(ctx_view(*code_gen_context) =~= st.ctx);
                }
                Result::Ok(())
            },
            Constraint::Fields(fields_decl, content_closed) => {
                match self.verify_abstract_data_type_consistency(
                    Shape::Struct(*content_closed),
                    code_gen_context,
                ) {
                    Result::Err(e) => {
                        return Result::Err(e);
                    },
                    Result::Ok(_) => {},
                }
                let ghost sh = sp_check_shape(ctx00.shape, ShapeV::Struct(*content_closed))->Ok_0;
                let ghost ctx1 = CtxV { shape: Option::Some(sh), fields: ctx00.fields, imports: ctx00.imports };
                let ghost files0 = files_view(files@);
                let ghost mut added_files: Seq<FileV> = Seq::empty();
                let ghost mut added_anons: Seq<Seq<char>> = Seq::empty();
                let n = fields_decl.len();
                let mut j: usize = 0;
                proof {
                    assert(files_view(files@) =~= files0 + added_files);
                    assert(ctx_view(*code_gen_context) =~= ctx1);
                }
                while j < n
                    invariant
                        n == fields_decl@.len(),
                        j <= n,
                        self.lang == lang0,
                        self.current_test_input == old(self).current_test_input,
                        cnt00 <= self.anonymous_type_counter as int,
                        self.anonymous_type_counter + anon_count_fields(fields_decl@, j as int)
                            <= u64::MAX,
                        files_view(files@) == files0 + added_files,
                        ({
                            let fut = sp_fields(
                                lang0,
                                fields_decl@,
                                j as int,
                                ctx_view(*code_gen_context),
                                self.anonymous_type_counter as int,
                                sample0,
                            );
                            let whole = sp_fields(lang0, fields_decl@, 0, ctx1, cnt00, sample0);
                            match fut {
                                Result::Ok(st) => whole == Result::<StepV, ErrV>::Ok(
                                    StepV {
                                        ctx: st.ctx,
                                        cnt: st.cnt,
                                        files: added_files + st.files,
                                        anons: added_anons + st.anons,
                                    },
                                ),
                                Result::Err(e) => whole == Result::<StepV, ErrV>::Err(e),
                            }
                        }),
                    decreases n - j,
                {
                    let ghost cnt_j = self.anonymous_type_counter as int;
                    let ghost ctx_j = ctx_view(*code_gen_context);
                    proof {
                        assert(anon_count_fields(fields_decl@, j as int) == anon_count_ref(
                            fields_decl@[j as int].type_ref,
                        ) + anon_count_fields(fields_decl@, j as int + 1));
                    }
                    let decl = &fields_decl[j];
                    proof {
                        assert(decreases_to!(*constraint => fields_decl@[j as int].type_ref));
                    }
                    let pair = match self.type_reference_name(
                        &decl.type_ref,
                        files,
                        &mut code_gen_context.imports,
                    ) {
                        Result::Ok(p) => p,
                        Result::Err(e) => {
                            proof {
                                let ev = sp_ref(lang0, fields_decl@[j as int].type_ref, cnt_j, sample0)->Err_0;
                                assert(sp_fields(lang0, fields_decl@, j as int, ctx_j, cnt_j, sample0)
                                    == Result::<StepV, ErrV>::Err(ev));
                            }
                            return Result::Err(e);
                        },
                    };
                    let (type_name_str, source_name) = pair;
                    let ghost ro = sp_ref(lang0, fields_decl@[j as int].type_ref, cnt_j, sample0)->Ok_0;
                    self.generate_struct_field(
                        &mut code_gen_context.fields,
                        type_name_str,
                        source_name,
                        decl.name.as_str(),
                    );
                    proof {
                        lemma_cnt_ref(lang0, fields_decl@[j as int].type_ref, cnt_j, sample0);
                        let ctx_next = CtxV {
                            shape: ctx_j.shape,
                            fields: ctx_j.fields.push(
                                FieldV {
                                    name: fields_decl@[j as int].name@,
                                    source: ro.source,
                                    target: ro.target,
                                },
                            ),
                            imports: ctx_j.imports + ro.imports,
                        };
                        assert(ctx_view(*code_gen_context) =~= ctx_next);
                        let added_files_old = added_files;
                        let added_anons_old = added_anons;
                        added_files = added_files + ro.files;
                        added_anons = added_anons + ro.anons;
                        let fut_next = sp_fields(
                            lang0,
                            fields_decl@,
                            j as int + 1,
                            ctx_next,
                            ro.cnt,
                            sample0,
                        );
                        match fut_next {
                            Result::Ok(st2) => {
                                assert(sp_fields(lang0, fields_decl@, j as int, ctx_j, cnt_j, sample0)
                                    == Result::<StepV, ErrV>::Ok(
                                    StepV {
                                        ctx: st2.ctx,
                                        cnt: st2.cnt,
                                        files: ro.files + st2.files,
                                        anons: ro.anons + st2.anons,
                                    },
                                ));
                                assert(added_files_old + (ro.files + st2.files) =~= added_files
                                    + st2.files);
                                assert(added_anons_old + (ro.anons + st2.anons) =~= added_anons
                                    + st2.anons);
                            },
                            Result::Err(e2) => {
                                assert(sp_fields(lang0, fields_decl@, j as int, ctx_j, cnt_j, sample0)
                                    == Result::<StepV, ErrV>::Err(e2));
                            },
                        }
                    }
                    j = j + 1;
                }
                proof {
                    assert(sp_fields(
                        lang0,
                        fields_decl@,
                        n as int,
                        ctx_view(*code_gen_context),
                        self.anonymous_type_counter as int,
                        sample0,
                    ) == Result::<StepV, ErrV>::Ok(
                        StepV {
                            ctx: ctx_view(*code_gen_context),
                            cnt: self.anonymous_type_counter as int,
                            files: Seq::empty(),
                            anons: Seq::empty(),
                        },
                    ));
                    assert(added_files + Seq::<FileV>::empty() =~= added_files);
                    assert(added_anons + Seq::<Seq<char>>::empty() =~= added_anons);
                    let st = sp_fields(lang0, fields_decl@, 0, ctx1, cnt00, sample0)->Ok_0;
                    assert(files_view(files@) =~= files_view(old(files)@) + st.files);
                }
                Result::Ok(())
            },
        }
    }
}


impl CodeGenerator {
    /// Generates one type definition: names it (allocating the next
    /// counter value when it is anonymous), walks its constraints in order
    /// (generating anonymous children depth-first as their references are
    /// resolved), and plans the definition's own file after its children's.
    /// Fails when a constraint conflicts with the established shape kind,
    /// when no constraint established a shape, or on a cross-schema
    /// import.
    #[verifier::loop_isolation(false)]
    fn generate_abstract_data_type(
        &mut self,
        files: &mut Vec<GeneratedFile>,
        isl_type: &TypeDef,
        is_root_type: bool,
    ) -> (res: Result<String, CodeGenError>)
        requires
            old(self).anonymous_type_counter + anon_count_td(*isl_type) <= u64::MAX,
        ensures
            final(self).lang == old(self).lang,
            final(self).current_test_input == old(self).current_test_input,
            final(self).anonymous_type_counter >= old(self).anonymous_type_counter,
            match res {
                Result::Ok(name) => {
                    &&& sp_gen_td(
                        old(self).lang,
                        *isl_type,
                        old(self).anonymous_type_counter as int,
                        is_root_type,
                        opt_str_view(old(self).current_test_input),
                    ) matches Result::Ok(o)
                    &&& name@ == o.name
                    &&& final(self).anonymous_type_counter as int == o.cnt
                    &&& files_view(final(files)@) == files_view(old(files)@) + o.files
                },
                Result::Err(e) => {
                    &&& sp_gen_td(
                        old(self).lang,
                        *isl_type,
                        old(self).anonymous_type_counter as int,
                        is_root_type,
                        opt_str_view(old(self).current_test_input),
                    ) matches Result::Err(ev)
                    &&& e@ == ev
                },
            },
        decreases *isl_type,
    {
        let ghost lang0 = self.lang;
        let ghost sample0 = opt_str_view(self.current_test_input);
        let ghost cnt00 = self.anonymous_type_counter as int;
        let isl_type_name: String = match &isl_type.name {
            Option::Some(n) => n.clone(),
            Option::None => {
                proof {
                    assert(anon_count_td(*isl_type) >= 1);
                }
                self.anonymous_type_counter = self.anonymous_type_counter + 1;
                make_anon_name(self.anonymous_type_counter)
            },
        };
        let ghost cnt0 = self.anonymous_type_counter as int;
        let mut code_gen_context = CodeGenContext::new();
        let ghost ctx0 = ctx_view(code_gen_context);
        let ghost files0 = files_view(files@);
        let ghost mut added_files: Seq<FileV> = Seq::empty();
        let ghost mut added_anons: Seq<Seq<char>> = Seq::empty();
        let n = isl_type.constraints.len();
        let mut i: usize = 0;
        proof {
            assert(files_view(files@) =~= files0 + added_files);
        }
        while i < n
            invariant
                n == isl_type.constraints@.len(),
                i <= n,
                self.lang == lang0,
                self.current_test_input == old(self).current_test_input,
                cnt0 <= self.anonymous_type_counter as int,
                self.anonymous_type_counter + anon_count_cs(isl_type.constraints@, i as int)
                    <= u64::MAX,
                files_view(files@) == files0 + added_files,
                ({
                    let fut = sp_constraints(
                        lang0,
                        isl_type.constraints@,
                        i as int,
                        ctx_view(code_gen_context),
                        self.anonymous_type_counter as int,
                        sample0,
                    );
                    let whole = sp_constraints(
                        lang0,
                        isl_type.constraints@,
                        0,
                        ctx0,
                        cnt0,
                        sample0,
                    );
                    match fut {
                        Result::Ok(st) => whole == Result::<StepV, ErrV>::Ok(
                            StepV {
                                ctx: st.ctx,
                                cnt: st.cnt,
                                files: added_files + st.files,
                                anons: added_anons + st.anons,
                            },
                        ),
                        Result::Err(e) => whole == Result::<StepV, ErrV>::Err(e),
                    }
                }),
            decreases n - i,
        {
            let ghost cnt_i = self.anonymous_type_counter as int;
            let ghost ctx_i = ctx_view(code_gen_context);
            proof {
                assert(anon_count_cs(isl_type.constraints@, i as int) == anon_count_c(
                    isl_type.constraints@[i as int],
                ) + anon_count_cs(isl_type.constraints@, i as int + 1));
            }
            let constraint = &isl_type.constraints[i];
            proof {
                assert(decreases_to!(*isl_type => isl_type.constraints@[i as int]));
            }
            match self.map_constraint_to_abstract_data_type(files, constraint, &mut code_gen_context) {
                Result::Err(e) => {
                    proof {
                        let ev = sp_constraint(lang0, isl_type.constraints@[i as int], ctx_i, cnt_i, sample0)->Err_0;
                        assert(sp_constraints(lang0, isl_type.constraints@, i as int, ctx_i, cnt_i, sample0)
                            == Result::<StepV, ErrV>::Err(ev));
                    }
                    return Result::Err(e);
                },
                Result::Ok(_) => {
                    proof {
                        let st1 = sp_constraint(lang0, isl_type.constraints@[i as int], ctx_i, cnt_i, sample0)->Ok_0;
                        lemma_cnt_c(lang0, isl_type.constraints@[i as int], ctx_i, cnt_i, sample0);
                        let added_files_old = added_files;
                        let added_anons_old = added_anons;
                        added_files = added_files + st1.files;
                        added_anons = added_anons + st1.anons;
                        let fut_next = sp_constraints(
                            lang0,
                            isl_type.constraints@,
                            i as int + 1,
                            st1.ctx,
                            st1.cnt,
                            sample0,
                        );
                        match fut_next {
                            Result::Ok(st2) => {
                                assert(sp_constraints(lang0, isl_type.constraints@, i as int, ctx_i, cnt_i, sample0)
                                    == Result::<StepV, ErrV>::Ok(
                                    StepV {
                                        ctx: st2.ctx,
                                        cnt: st2.cnt,
                                        files: st1.files + st2.files,
                                        anons: st1.anons + st2.anons,
                                    },
                                ));
                                assert(added_files_old + (st1.files + st2.files) =~= added_files
                                    + st2.files);
                                assert(added_anons_old + (st1.anons + st2.anons) =~= added_anons
                                    + st2.anons);
                            },
                            Result::Err(e2) => {
                                assert(sp_constraints(lang0, isl_type.constraints@, i as int, ctx_i, cnt_i, sample0)
                                    == Result::<StepV, ErrV>::Err(e2));
                            },
                        }
                    }
                    i = i + 1;
                },
            }
        }
        proof {
            assert(sp_constraints(
                lang0,
                isl_type.constraints@,
                n as int,
                ctx_view(code_gen_context),
                self.anonymous_type_counter as int,
                sample0,
            ) == Result::<StepV, ErrV>::Ok(
                StepV {
                    ctx: ctx_view(code_gen_context),
                    cnt: self.anonymous_type_counter as int,
                    files: Seq::empty(),
                    anons: Seq::empty(),
                },
            ));
            assert(added_files + Seq::<FileV>::empty() =~= added_files);
            assert(added_anons + Seq::<Seq<char>>::empty() =~= added_anons);
        }
        match &code_gen_context.abstract_data_type {
            Option::None => Result::Err(CodeGenError::UndeterminedShape),
            Option::Some(shape0) => {
                let ghost st = sp_constraints(lang0, isl_type.constraints@, 0, ctx0, cnt0, sample0)->Ok_0;
                self.render_generated_code(
                    files,
                    isl_type_name.as_str(),
                    shape0,
                    is_root_type,
                    &code_gen_context,
                );
                proof {
                    let o = sp_gen_td(lang0, *isl_type, cnt00, is_root_type, sample0)->Ok_0;
                    assert((files0 + added_files).push(
                        file_for(lang0, isl_type_name@, shape0@, ctx_view(code_gen_context), is_root_type, sample0),
                    ) =~= files0 + added_files.push(
                        file_for(lang0, isl_type_name@, shape0@, ctx_view(code_gen_context), is_root_type, sample0),
                    ));
                    assert(files_view(files@) == files0 + o.files);
                }
                Result::Ok(isl_type_name)
            },
        }
    }
}


/// The templates a backend must have registered before generation starts:
/// one per shape kind, and the module index template for a target that
/// requires the index.
pub open spec fn required_templates(lang: Lang) -> Seq<Seq<char>> {
    match lang {
        Lang::Rust => seq!["value.templ"@, "sequence.templ"@, "struct.templ"@, "mod.templ"@],
        Lang::Java => seq!["value.templ"@, "sequence.templ"@, "class.templ"@],
    }
}

/// Whether a template with the given name is registered.
pub open spec fn has_template(names: Seq<Seq<char>>, key: Seq<char>) -> bool {
    exists|i: int| 0 <= i < names.len() && names[i] == key
}

/// The first required template, from position `k` on, that is not
/// registered.
pub open spec fn first_missing(req: Seq<Seq<char>>, k: int, names: Seq<Seq<char>>) -> Option<
    Seq<char>,
>
    decreases req, req.len() - k,
{
    if k < 0 || k >= req.len() {
        Option::None
    } else if !has_template(names, req[k]) {
        Option::Some(req[k])
    } else {
        first_missing(req, k + 1, names)
    }
}

/// Whether the given list of registered template names holds one with the
/// given name.
fn contains_template(template_names: &Vec<String>, key: &str) -> (r: bool)
    ensures
        r == has_template(strings_view(template_names@), key@),
{
    let mut i: usize = 0;
    let n = template_names.len();
    while i < n
        invariant
            n == template_names@.len(),
            i <= n,
            forall|k: int| 0 <= k < i ==> strings_view(template_names@)[k] != key@,
        decreases n - i,
    {
        if str_eq(template_names[i].as_str(), key) {
            proof {
                assert(strings_view(template_names@)[i as int] == key@);
            }
            return true;
        }
        i = i + 1;
    }
    proof {
        assert(!has_template(strings_view(template_names@), key@)) by {
            assert(forall|k: int|
                0 <= k < template_names@.len() ==> strings_view(template_names@)[k] != key@);
        }
    }
    false
}

impl CodeGenerator {
    /// A generator for the given target language, checked against the set
    /// of registered template names: every template the language needs must
    /// be registered, else construction fails naming the first missing one.
    /// The anonymous-type counter starts at zero and no test input is set.
    pub fn new(lang: Lang, template_names: &Vec<String>) -> (res: Result<
        CodeGenerator,
        CodeGenError,
    >)
        ensures
            match res {
                Result::Ok(g) => {
                    &&& first_missing(required_templates(lang), 0, strings_view(template_names@))
                        is None
                    &&& g.lang == lang
                    &&& g.anonymous_type_counter == 0
                    &&& g.current_test_input is None
                },
                Result::Err(e) => {
                    &&& first_missing(required_templates(lang), 0, strings_view(template_names@))
                        matches Option::Some(k)
                    &&& e@ == ErrV::MissingTemplate(k)
                },
            },
    {
        let ghost req = required_templates(lang);
        let ghost nv = strings_view(template_names@);
        match lang {
            Lang::Rust => {
                proof {
                    assert(req[0] == "value.templ"@);
                    assert(req[1] == "sequence.templ"@);
                    assert(req[2] == "struct.templ"@);
                    assert(req[3] == "mod.templ"@);
                }
                if !contains_template(template_names, "value.templ") {
                    return Result::Err(CodeGenError::MissingTemplate("value.templ".to_owned()));
                }
                if !contains_template(template_names, "sequence.templ") {
                    proof {
                        assert(first_missing(req, 0, nv) == first_missing(req, 1, nv));
                    }
                    return Result::Err(CodeGenError::MissingTemplate("sequence.templ".to_owned()));
                }
                if !contains_template(template_names, "struct.templ") {
                    proof {
                        assert(first_missing(req, 1, nv) == first_missing(req, 2, nv));
                        assert(first_missing(req, 0, nv) == first_missing(req, 1, nv));
                    }
                    return Result::Err(CodeGenError::MissingTemplate("struct.templ".to_owned()));
                }
                if !contains_template(template_names, "mod.templ") {
                    proof {
                        assert(first_missing(req, 2, nv) == first_missing(req, 3, nv));
                        assert(first_missing(req, 1, nv) == first_missing(req, 2, nv));
                        assert(first_missing(req, 0, nv) == first_missing(req, 1, nv));
                    }
                    return Result::Err(CodeGenError::MissingTemplate("mod.templ".to_owned()));
                }
                proof {
                    assert(first_missing(req, 4, nv) is None);
                    assert(first_missing(req, 3, nv) == first_missing(req, 4, nv));
                    assert(first_missing(req, 2, nv) == first_missing(req, 3, nv));
                    assert(first_missing(req, 1, nv) == first_missing(req, 2, nv));
                    assert(first_missing(req, 0, nv) == first_missing(req, 1, nv));
                }
            },
            Lang::Java => {
                proof {
                    assert(req[0] == "value.templ"@);
                    assert(req[1] == "sequence.templ"@);
                    assert(req[2] == "class.templ"@);
                }
                if !contains_template(template_names, "value.templ") {
                    return Result::Err(CodeGenError::MissingTemplate("value.templ".to_owned()));
                }
                if !contains_template(template_names, "sequence.templ") {
                    proof {
                        assert(first_missing(req, 0, nv) == first_missing(req, 1, nv));
                    }
                    return Result::Err(CodeGenError::MissingTemplate("sequence.templ".to_owned()));
                }
                if !contains_template(template_names, "class.templ") {
                    proof {
                        assert(first_missing(req, 1, nv) == first_missing(req, 2, nv));
                        assert(first_missing(req, 0, nv) == first_missing(req, 1, nv));
                    }
                    return Result::Err(CodeGenError::MissingTemplate("class.templ".to_owned()));
                }
                proof {
                    assert(first_missing(req, 3, nv) is None);
                    assert(first_missing(req, 2, nv) == first_missing(req, 3, nv));
                    assert(first_missing(req, 1, nv) == first_missing(req, 2, nv));
                    assert(first_missing(req, 0, nv) == first_missing(req, 1, nv));
                }
            },
        }
        Result::Ok(CodeGenerator { lang, anonymous_type_counter: 0, current_test_input: Option::None })
    }

    /// Generates the code planned for one schema: every type definition in
    /// order, the first as root, then, for a target that requires it, the
    /// module index listing every planned file's stem in generation order.
    /// The anonymous-type counter carries on from wherever the previous
    /// schema left it.
    #[verifier::loop_isolation(false)]
    fn generate(&mut self, schema_types: &Vec<TypeDef>) -> (res: Result<SchemaOutput, CodeGenError>)
        requires
            old(self).anonymous_type_counter + anon_count_tds(schema_types@, 0) <= u64::MAX,
        ensures
            final(self).lang == old(self).lang,
            final(self).current_test_input == old(self).current_test_input,
            final(self).anonymous_type_counter >= old(self).anonymous_type_counter,
            match res {
                Result::Ok(out) => {
                    &&& sp_schema(
                        old(self).lang,
                        schema_types@,
                        0,
                        old(self).anonymous_type_counter as int,
                        opt_str_view(old(self).current_test_input),
                    ) matches Result::Ok(run)
                    &&& files_view(out.files@) == run.files
                    &&& final(self).anonymous_type_counter as int == run.cnt
                    &&& (spec_requires_modules(old(self).lang) ==> (out.modules matches Option::Some(
                        ms,
                    ) && strings_view(ms@) == stems_of(run.files)))
                    &&& (!spec_requires_modules(old(self).lang) ==> out.modules is None)
                },
                Result::Err(e) => {
                    &&& sp_schema(
                        old(self).lang,
                        schema_types@,
                        0,
                        old(self).anonymous_type_counter as int,
                        opt_str_view(old(self).current_test_input),
                    ) matches Result::Err(ev)
                    &&& e@ == ev
                },
            },
    {
        let ghost lang0 = self.lang;
        let ghost sample0 = opt_str_view(self.current_test_input);
        let ghost cnt0 = self.anonymous_type_counter as int;
        let mut files: Vec<GeneratedFile> = Vec::new();
        let ghost mut added_files: Seq<FileV> = Seq::empty();
        let ghost mut added_anons: Seq<Seq<char>> = Seq::empty();
        let n = schema_types.len();
        let mut i: usize = 0;
        proof {
            assert(files_view(files@) =~= added_files);
        }
        while i < n
            invariant
                n == schema_types@.len(),
                i <= n,
                self.lang == old(self).lang,
                self.current_test_input == old(self).current_test_input,
                old(self).anonymous_type_counter <= self.anonymous_type_counter,
                self.anonymous_type_counter + anon_count_tds(schema_types@, i as int) <= u64::MAX,
                files_view(files@) == added_files,
                ({
                    let fut = sp_schema(
                        lang0,
                        schema_types@,
                        i as int,
                        self.anonymous_type_counter as int,
                        sample0,
                    );
                    let whole = sp_schema(lang0, schema_types@, 0, cnt0, sample0);
                    match fut {
                        Result::Ok(run) => whole == Result::<RunV, ErrV>::Ok(
                            RunV {
                                cnt: run.cnt,
                                files: added_files + run.files,
                                anons: added_anons + run.anons,
                            },
                        ),
                        Result::Err(e) => whole == Result::<RunV, ErrV>::Err(e),
                    }
                }),
            decreases n - i,
        {
            let ghost cnt_i = self.anonymous_type_counter as int;
            proof {
                assert(anon_count_tds(schema_types@, i as int) == anon_count_td(
                    schema_types@[i as int],
                ) + anon_count_tds(schema_types@, i as int + 1));
            }
            let td = &schema_types[i];
            let is_root = i == 0;
            match self.generate_abstract_data_type(&mut files, td, is_root) {
                Result::Err(e) => {
                    proof {
                        let ev = sp_gen_td(lang0, schema_types@[i as int], cnt_i, i == 0, sample0)->Err_0;
                        assert(sp_schema(lang0, schema_types@, i as int, cnt_i, sample0)
                            == Result::<RunV, ErrV>::Err(ev));
                    }
                    return Result::Err(e);
                },
                Result::Ok(_name) => {
                    proof {
                        let o = sp_gen_td(lang0, schema_types@[i as int], cnt_i, i == 0, sample0)->Ok_0;
                        lemma_cnt_td(lang0, schema_types@[i as int], cnt_i, i == 0, sample0);
                        let added_files_old = added_files;
                        let added_anons_old = added_anons;
                        added_files = added_files + o.files;
                        added_anons = added_anons + o.anons;
                        let fut_next = sp_schema(lang0, schema_types@, i as int + 1, o.cnt, sample0);
                        match fut_next {
                            Result::Ok(rest) => {
                                assert(sp_schema(lang0, schema_types@, i as int, cnt_i, sample0)
                                    == Result::<RunV, ErrV>::Ok(
                                    RunV {
                                        cnt: rest.cnt,
                                        files: o.files + rest.files,
                                        anons: o.anons + rest.anons,
                                    },
                                ));
                                assert(added_files_old + (o.files + rest.files) =~= added_files
                                    + rest.files);
                                assert(added_anons_old + (o.anons + rest.anons) =~= added_anons
                                    + rest.anons);
                            },
                            Result::Err(e2) => {
                                assert(sp_schema(lang0, schema_types@, i as int, cnt_i, sample0)
                                    == Result::<RunV, ErrV>::Err(e2));
                            },
                        }
                    }
                    i = i + 1;
                },
            }
        }
        proof {
            assert(sp_schema(
                lang0,
                schema_types@,
                n as int,
                self.anonymous_type_counter as int,
                sample0,
            ) == Result::<RunV, ErrV>::Ok(
                RunV {
                    cnt: self.anonymous_type_counter as int,
                    files: Seq::empty(),
                    anons: Seq::empty(),
                },
            ));
            assert(added_files + Seq::<FileV>::empty() =~= added_files);
            assert(added_anons + Seq::<Seq<char>>::empty() =~= added_anons);
        }
        let modules: Option<Vec<String>> = if self.lang.requires_modules() {
            let mut ms: Vec<String> = Vec::new();
            let mut k: usize = 0;
            let fl = files.len();
            while k < fl
                invariant
                    fl == files@.len(),
                    k <= fl,
                    ms@.len() == k,
                    strings_view(ms@) == stems_of(files_view(files@)).take(k as int),
                decreases fl - k,
            {
                ms.push(files[k].stem.clone());
                k = k + 1;
                proof {
                    assert(strings_view(ms@) =~= stems_of(files_view(files@)).take(k as int));
                }
            }
            proof {
                assert(stems_of(files_view(files@)).take(fl as int) =~= stems_of(
                    files_view(files@),
                ));
            }
            Option::Some(ms)
        } else {
            Option::None
        };
        Result::Ok(SchemaOutput { files, modules })
    }

    /// Generates code for one loaded schema.
    pub fn generate_code_for(&mut self, schema_types: &Vec<TypeDef>) -> (res: Result<
        SchemaOutput,
        CodeGenError,
    >)
        requires
            old(self).anonymous_type_counter + anon_count_tds(schema_types@, 0) <= u64::MAX,
        ensures
            final(self).lang == old(self).lang,
            final(self).current_test_input == old(self).current_test_input,
            final(self).anonymous_type_counter >= old(self).anonymous_type_counter,
            match res {
                Result::Ok(out) => {
                    &&& sp_schema(
                        old(self).lang,
                        schema_types@,
                        0,
                        old(self).anonymous_type_counter as int,
                        opt_str_view(old(self).current_test_input),
                    ) matches Result::Ok(run)
                    &&& files_view(out.files@) == run.files
                    &&& final(self).anonymous_type_counter as int == run.cnt
                    &&& (spec_requires_modules(old(self).lang) ==> (out.modules matches Option::Some(
                        ms,
                    ) && strings_view(ms@) == stems_of(run.files)))
                    &&& (!spec_requires_modules(old(self).lang) ==> out.modules is None)
                },
                Result::Err(e) => {
                    &&& sp_schema(
                        old(self).lang,
                        schema_types@,
                        0,
                        old(self).anonymous_type_counter as int,
                        opt_str_view(old(self).current_test_input),
                    ) matches Result::Err(ev)
                    &&& e@ == ev
                },
            },
    {
        self.generate(schema_types)
    }

    /// Generates code for one loaded schema with round-trip tests: the raw
    /// sample text is set as the test input and embedded verbatim in every
    /// file planned for this schema.
    pub fn generate_code_with_tests_for(
        &mut self,
        schema_types: &Vec<TypeDef>,
        test_input: String,
    ) -> (res: Result<SchemaOutput, CodeGenError>)
        requires
            old(self).anonymous_type_counter + anon_count_tds(schema_types@, 0) <= u64::MAX,
        ensures
            final(self).lang == old(self).lang,
            opt_str_view(final(self).current_test_input) == Option::Some(test_input@),
            final(self).anonymous_type_counter >= old(self).anonymous_type_counter,
            match res {
                Result::Ok(out) => {
                    &&& sp_schema(
                        old(self).lang,
                        schema_types@,
                        0,
                        old(self).anonymous_type_counter as int,
                        Option::Some(test_input@),
                    ) matches Result::Ok(run)
                    &&& files_view(out.files@) == run.files
                    &&& final(self).anonymous_type_counter as int == run.cnt
                    &&& (spec_requires_modules(old(self).lang) ==> (out.modules matches Option::Some(
                        ms,
                    ) && strings_view(ms@) == stems_of(run.files)))
                    &&& (!spec_requires_modules(old(self).lang) ==> out.modules is None)
                },
                Result::Err(e) => {
                    &&& sp_schema(
                        old(self).lang,
                        schema_types@,
                        0,
                        old(self).anonymous_type_counter as int,
                        Option::Some(test_input@),
                    ) matches Result::Err(ev)
                    &&& e@ == ev
                },
            },
    {
        self.current_test_input = Option::Some(test_input);
        self.generate(schema_types)
    }
}

} // verus!




