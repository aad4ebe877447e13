//! The laws of the generator, stated and proved over the ghost semantics of
//! `generator`: one file per conflict-free definition with the declared
//! field order kept, a conflict error naming both kinds, deterministic
//! monotonic anonymous naming, no imports for built-in primitives, and a
//! complete module index with children before their referencing parent.
use vstd::prelude::*;

use crate::backend::{is_builtin_isl, file_stem_of, target_type_of, template_of, Lang};
use crate::casing::upper_camel_of;
use crate::context::{sp_check_shape, CtxV, FieldV};
use crate::generator::{
    anon_range, cased_fields, lemma_cnt_schema, sp_constraint, sp_constraints, sp_fields, sp_gen_td,
    sp_ref, sp_schema, stems_of, FileV, StepV,
};
use crate::model::{
    anon_count_tds, kind_of, Constraint, ErrV, FieldDecl, ShapeKind, ShapeV, TypeDef, TypeRef,
};

verus! {

/// The shape kind a constraint establishes, if it establishes one.
pub open spec fn c_kind(c: Constraint) -> Option<ShapeKind> {
    match c {
        Constraint::WholeType(_) => Option::Some(ShapeKind::Value),
        Constraint::ElementType(_) => Option::Some(ShapeKind::Sequence),
        Constraint::Fields(_, _) => Option::Some(ShapeKind::Struct),
        Constraint::Other => Option::None,
    }
}

/// Whether every type reference of a constraint is a plain named reference.
pub open spec fn c_refs_named(c: Constraint) -> bool {
    match c {
        Constraint::WholeType(r) => r is Named,
        Constraint::ElementType(r) => r is Named,
        Constraint::Fields(pairs, _) => forall|m: int|
            0 <= m < pairs@.len() ==> pairs@[m].type_ref is Named,
        Constraint::Other => true,
    }
}

/// The name a named reference holds.
pub open spec fn ref_name(r: TypeRef) -> Seq<char> {
    match r {
        TypeRef::Named(n) => n@,
        _ => Seq::empty(),
    }
}

/// The members that a fields constraint with named references contributes,
/// in declared order.
pub open spec fn named_fields_list(lang: Lang, pairs: Seq<FieldDecl>, j: int) -> Seq<FieldV>
    decreases pairs, pairs.len() - j,
{
    if j < 0 || j >= pairs.len() {
        Seq::empty()
    } else {
        seq![
            FieldV {
                name: pairs[j].name@,
                source: ref_name(pairs[j].type_ref),
                target: target_type_of(lang, ref_name(pairs[j].type_ref)),
            },
        ] + named_fields_list(lang, pairs, j + 1)
    }
}

/// The imports that a fields constraint with named references records: one
/// entry per non-built-in reference, in declared order, never deduplicated.
pub open spec fn named_imports(pairs: Seq<FieldDecl>, j: int) -> Seq<Seq<char>>
    decreases pairs, pairs.len() - j,
{
    if j < 0 || j >= pairs.len() {
        Seq::empty()
    } else {
        (if is_builtin_isl(ref_name(pairs[j].type_ref)) {
            Seq::empty()
        } else {
            seq![ref_name(pairs[j].type_ref)]
        }) + named_imports(pairs, j + 1)
    }
}

/// A built-in primitive reference records no import and plans no file of
/// its own; every other named reference records exactly one import and
/// plans no file.
pub proof fn lemma_named_ref_imports(lang: Lang, n: String, cnt: int, sample: Option<Seq<char>>)
    ensures
        sp_ref(lang, TypeRef::Named(n), cnt, sample) matches Result::Ok(ro) && ro.files.len() == 0
            && ro.cnt == cnt && (is_builtin_isl(n@) ==> ro.imports.len() == 0) && (!is_builtin_isl(
            n@,
        ) ==> ro.imports =~= seq![n@]),
{
}

/// Resolving field declarations whose references are all named succeeds,
/// plans no files, leaves the counter and the shape alone, and appends
/// exactly one member per declaration, in declared order, and one import
/// per non-built-in reference, in the same order.
pub proof fn lemma_fields_named(
    lang: Lang,
    pairs: Seq<FieldDecl>,
    j: int,
    ctx: CtxV,
    cnt: int,
    sample: Option<Seq<char>>,
)
    requires
        forall|m: int| j <= m < pairs.len() ==> pairs[m].type_ref is Named,
    ensures
        sp_fields(lang, pairs, j, ctx, cnt, sample) matches Result::Ok(st) && st.cnt == cnt
            && st.files == Seq::<FileV>::empty() && st.ctx.shape == ctx.shape && st.ctx.fields
            == ctx.fields + named_fields_list(lang, pairs, j) && st.ctx.imports == ctx.imports
            + named_imports(pairs, j),
    decreases pairs, pairs.len() - j,
{
    if j < 0 || j >= pairs.len() {
        assert(ctx.fields + named_fields_list(lang, pairs, j) =~= ctx.fields);
        assert(ctx.imports + named_imports(pairs, j) =~= ctx.imports);
    } else {
        let ro = sp_ref(lang, pairs[j].type_ref, cnt, sample)->Ok_0;
        let f0 = FieldV { name: pairs[j].name@, source: ro.source, target: ro.target };
        let ctx1 = CtxV {
            shape: ctx.shape,
            fields: ctx.fields.push(f0),
            imports: ctx.imports + ro.imports,
        };
        lemma_fields_named(lang, pairs, j + 1, ctx1, ro.cnt, sample);
        let st2 = sp_fields(lang, pairs, j + 1, ctx1, ro.cnt, sample)->Ok_0;
        assert(ro.files + st2.files =~= Seq::<FileV>::empty());
        assert(ctx.fields.push(f0) =~= ctx.fields + seq![f0]);
        assert((ctx.fields + seq![f0]) + named_fields_list(lang, pairs, j + 1) =~= ctx.fields + (
        seq![f0] + named_fields_list(lang, pairs, j + 1)));
        assert((ctx.imports + ro.imports) + named_imports(pairs, j + 1) =~= ctx.imports + (
        ro.imports + named_imports(pairs, j + 1)));
    }
}

/// Resolving constraints that all either establish the one kind `k` or are
/// ignored, with every reference named, succeeds: no files are planned, the
/// counter stands, the shape stays of kind `k` once some constraint has
/// established it, and an already-established shape survives.
pub proof fn lemma_constraints_same_kind(
    lang: Lang,
    cs: Seq<Constraint>,
    i: int,
    ctx: CtxV,
    cnt: int,
    sample: Option<Seq<char>>,
    k: ShapeKind,
)
    requires
        0 <= i,
        forall|m: int| i <= m < cs.len() ==> c_refs_named(#[trigger] cs[m]),
        forall|m: int|
            i <= m < cs.len() ==> (c_kind(#[trigger] cs[m]) == Option::Some(k) || c_kind(cs[m])
                is None),
        ctx.shape matches Option::Some(s) ==> kind_of(s) == k,
    ensures
        sp_constraints(lang, cs, i, ctx, cnt, sample) matches Result::Ok(st) && st.cnt == cnt
            && st.files == Seq::<FileV>::empty() && (st.ctx.shape matches Option::Some(s2)
            ==> kind_of(s2) == k) && (ctx.shape is Some ==> st.ctx.shape == ctx.shape) && ((
        ctx.shape is Some || exists|m: int|
            i <= m < cs.len() && c_kind(#[trigger] cs[m]) is Some) ==> st.ctx.shape is Some),
    decreases cs, cs.len() - i,
{
    if i < 0 || i >= cs.len() {
    } else {
        // naming the one-step application makes its definition available here
        let step = sp_constraint(lang, cs[i], ctx, cnt, sample);
        match cs[i] {
            Constraint::Other => {
                lemma_constraints_same_kind(lang, cs, i + 1, ctx, cnt, sample, k);
                let st2 = sp_constraints(lang, cs, i + 1, ctx, cnt, sample)->Ok_0;
                assert(Seq::<FileV>::empty() + st2.files =~= Seq::<FileV>::empty());
                if ctx.shape is None && exists|m: int|
                    i <= m < cs.len() && c_kind(#[trigger] cs[m]) is Some {
                    let w = choose|m: int| i <= m < cs.len() && c_kind(#[trigger] cs[m]) is Some;
                    assert(w != i);
                    assert(i + 1 <= w < cs.len() && c_kind(cs[w]) is Some);
                }
            },
            Constraint::WholeType(r) => {
                let ro = sp_ref(lang, r, cnt, sample)->Ok_0;
                let sh = sp_check_shape(ctx.shape, ShapeV::Value(ro.target))->Ok_0;
                let ctx1 = CtxV {
                    shape: Option::Some(sh),
                    fields: ctx.fields.push(
                        FieldV { name: "value"@, source: ro.source, target: ro.target },
                    ),
                    imports: ctx.imports + ro.imports,
                };
                lemma_constraints_same_kind(lang, cs, i + 1, ctx1, cnt, sample, k);
                let st2 = sp_constraints(lang, cs, i + 1, ctx1, cnt, sample)->Ok_0;
                assert(Seq::<FileV>::empty() + st2.files =~= Seq::<FileV>::empty());
            },
            Constraint::ElementType(r) => {
                let ro = sp_ref(lang, r, cnt, sample)->Ok_0;
                let sh = sp_check_shape(ctx.shape, ShapeV::Sequence(ro.target))->Ok_0;
                let ctx1 = CtxV {
                    shape: Option::Some(sh),
                    fields: ctx.fields.push(
                        FieldV {
                            name: "value"@,
                            source: ro.source,
                            target: crate::backend::sequence_type_of(lang, ro.target),
                        },
                    ),
                    imports: ctx.imports + ro.imports,
                };
                lemma_constraints_same_kind(lang, cs, i + 1, ctx1, cnt, sample, k);
                let st2 = sp_constraints(lang, cs, i + 1, ctx1, cnt, sample)->Ok_0;
                assert(Seq::<FileV>::empty() + st2.files =~= Seq::<FileV>::empty());
            },
            Constraint::Fields(pairs, closed) => {
                let sh = sp_check_shape(ctx.shape, ShapeV::Struct(closed))->Ok_0;
                let ctx1 = CtxV { shape: Option::Some(sh), fields: ctx.fields, imports: ctx.imports };
                assert(forall|m: int| 0 <= m < pairs@.len() ==> pairs@[m].type_ref is Named);
                lemma_fields_named(lang, pairs@, 0, ctx1, cnt, sample);
                let st1 = sp_fields(lang, pairs@, 0, ctx1, cnt, sample)->Ok_0;
                lemma_constraints_same_kind(lang, cs, i + 1, st1.ctx, st1.cnt, sample, k);
                let st2 = sp_constraints(lang, cs, i + 1, st1.ctx, st1.cnt, sample)->Ok_0;
                assert(st1.files + st2.files =~= Seq::<FileV>::empty());
            },
        }
    }
}

/// For a type definition whose constraints all establish one shape kind or
/// are ignored, with at least one establishing it and every reference
/// named, generation succeeds and plans exactly one file, rendered with the
/// template registered for that kind, named after the definition.
pub proof fn lemma_one_kind_one_file(
    lang: Lang,
    td: TypeDef,
    cnt: int,
    root: bool,
    sample: Option<Seq<char>>,
    k: ShapeKind,
)
    requires
        forall|m: int| 0 <= m < td.constraints@.len() ==> c_refs_named(#[trigger] td.constraints@[m]),
        forall|m: int|
            0 <= m < td.constraints@.len() ==> (c_kind(#[trigger] td.constraints@[m])
                == Option::Some(k) || c_kind(td.constraints@[m]) is None),
        exists|m: int|
            0 <= m < td.constraints@.len() && c_kind(#[trigger] td.constraints@[m]) is Some,
    ensures
        sp_gen_td(lang, td, cnt, root, sample) matches Result::Ok(o) && o.files.len() == 1
            && o.files[0].template == template_of(lang, k) && o.files[0].stem == file_stem_of(
            lang,
            o.name,
        ) && o.files[0].target_kind_name == upper_camel_of(o.name) && o.files[0].is_root == root
            && o.files[0].sample == sample,
{
    let c1: int = if td.name is Some {
        cnt
    } else {
        cnt + 1
    };
    let ctx0 = CtxV {
        shape: Option::<ShapeV>::None,
        fields: Seq::<FieldV>::empty(),
        imports: Seq::<Seq<char>>::empty(),
    };
    lemma_constraints_same_kind(lang, td.constraints@, 0, ctx0, c1, sample, k);
    let st = sp_constraints(lang, td.constraints@, 0, ctx0, c1, sample)->Ok_0;
    assert(st.ctx.shape is Some);
}

/// A type definition whose first constraint establishes kind `a`, whose
/// constraints up to position `j` all establish `a` or are ignored, and
/// whose constraint at `j` establishes a different kind `b`, fails with a
/// shape conflict naming both kinds, provided the references involved are
/// named.
pub proof fn lemma_shape_conflict(
    lang: Lang,
    td: TypeDef,
    cnt: int,
    root: bool,
    sample: Option<Seq<char>>,
    j: int,
    a: ShapeKind,
    b: ShapeKind,
)
    requires
        0 < j < td.constraints@.len(),
        c_kind(td.constraints@[0]) == Option::Some(a),
        c_kind(td.constraints@[j]) == Option::Some(b),
        a != b,
        forall|m: int|
            0 < m < j ==> (c_kind(#[trigger] td.constraints@[m]) == Option::Some(a) || c_kind(
                td.constraints@[m],
            ) is None),
        forall|m: int| 0 <= m <= j ==> c_refs_named(#[trigger] td.constraints@[m]),
    ensures
        sp_gen_td(lang, td, cnt, root, sample) == Result::<crate::generator::TdOutV, ErrV>::Err(
            ErrV::ShapeConflict { prior: a, current: b },
        ),
{
    let c1: int = if td.name is Some {
        cnt
    } else {
        cnt + 1
    };
    let ctx0 = CtxV {
        shape: Option::<ShapeV>::None,
        fields: Seq::<FieldV>::empty(),
        imports: Seq::<Seq<char>>::empty(),
    };
    let st1 = sp_constraint(lang, td.constraints@[0], ctx0, c1, sample)->Ok_0;
    match td.constraints@[0] {
        Constraint::WholeType(r) => {
            lemma_named_step_ok(lang, td.constraints@[0], ctx0, c1, sample);
        },
        Constraint::ElementType(r) => {
            lemma_named_step_ok(lang, td.constraints@[0], ctx0, c1, sample);
        },
        Constraint::Fields(pairs, closed) => {
            lemma_named_step_ok(lang, td.constraints@[0], ctx0, c1, sample);
        },
        Constraint::Other => {
            assert(false);
        },
    }
    lemma_conflict_from(lang, td.constraints@, 1, st1.ctx, st1.cnt, sample, j, a, b);
}

/// One constraint with named references, applied to an accumulator with no
/// shape or a shape of the same kind, succeeds and leaves a shape of its
/// kind established.
proof fn lemma_named_step_ok(
    lang: Lang,
    c: Constraint,
    ctx: CtxV,
    cnt: int,
    sample: Option<Seq<char>>,
)
    requires
        c_refs_named(c),
        c_kind(c) is Some,
        ctx.shape matches Option::Some(s) ==> kind_of(s) == c_kind(c)->0,
    ensures
        sp_constraint(lang, c, ctx, cnt, sample) matches Result::Ok(st) && st.cnt == cnt && (
        st.ctx.shape matches Option::Some(s2) && kind_of(s2) == c_kind(c)->0),
{
    match c {
        Constraint::Fields(pairs, closed) => {
            let sh = sp_check_shape(ctx.shape, ShapeV::Struct(closed))->Ok_0;
            let ctx1 = CtxV { shape: Option::Some(sh), fields: ctx.fields, imports: ctx.imports };
            lemma_fields_named(lang, pairs@, 0, ctx1, cnt, sample);
        },
        _ => {},
    }
}

/// Walking on from an established shape of kind `a`, through constraints
/// that establish `a` or nothing, the first constraint of another kind `b`
/// fails the resolution with a conflict naming `a` and `b`.
proof fn lemma_conflict_from(
    lang: Lang,
    cs: Seq<Constraint>,
    i: int,
    ctx: CtxV,
    cnt: int,
    sample: Option<Seq<char>>,
    j: int,
    a: ShapeKind,
    b: ShapeKind,
)
    requires
        0 < i <= j < cs.len(),
        ctx.shape matches Option::Some(s) && kind_of(s) == a,
        c_kind(cs[j]) == Option::Some(b),
        a != b,
        forall|m: int|
            i <= m < j ==> (c_kind(#[trigger] cs[m]) == Option::Some(a) || c_kind(cs[m]) is None),
        forall|m: int| i <= m <= j ==> c_refs_named(#[trigger] cs[m]),
    ensures
        sp_constraints(lang, cs, i, ctx, cnt, sample) == Result::<StepV, ErrV>::Err(
            ErrV::ShapeConflict { prior: a, current: b },
        ),
    decreases j - i,
{
    if i == j {
        match cs[j] {
            Constraint::WholeType(r) => {},
            Constraint::ElementType(r) => {},
            Constraint::Fields(pairs, closed) => {},
            Constraint::Other => {
                assert(false);
            },
        }
    } else {
        match cs[i] {
            Constraint::Other => {
                lemma_conflict_from(lang, cs, i + 1, ctx, cnt, sample, j, a, b);
            },
            _ => {
                lemma_named_step_ok(lang, cs[i], ctx, cnt, sample);
                let st1 = sp_constraint(lang, cs[i], ctx, cnt, sample)->Ok_0;
                lemma_conflict_from(lang, cs, i + 1, st1.ctx, st1.cnt, sample, j, a, b);
            },
        }
    }
}

/// `Fields` output preserves declared field order exactly: a definition
/// resolved from one fields constraint with named references plans exactly
/// one structure file whose members are the declarations in declared
/// order, re-cased for the target, and whose imports are the non-built-in
/// referenced names in the same order.
pub proof fn lemma_field_order_preserved(
    lang: Lang,
    td: TypeDef,
    cnt: int,
    root: bool,
    sample: Option<Seq<char>>,
    pairs: Vec<FieldDecl>,
    closed: bool,
)
    requires
        td.constraints@ == seq![Constraint::Fields(pairs, closed)],
        forall|m: int| 0 <= m < pairs@.len() ==> pairs@[m].type_ref is Named,
    ensures
        sp_gen_td(lang, td, cnt, root, sample) matches Result::Ok(o) && o.files.len() == 1
            && o.files[0].template == template_of(lang, ShapeKind::Struct) && o.files[0].fields
            == cased_fields(lang, named_fields_list(lang, pairs@, 0)) && o.files[0].imports
            == named_imports(pairs@, 0),
{
    let c1: int = if td.name is Some {
        cnt
    } else {
        cnt + 1
    };
    let cs = td.constraints@;
    let ctx0 = CtxV {
        shape: Option::<ShapeV>::None,
        fields: Seq::<FieldV>::empty(),
        imports: Seq::<Seq<char>>::empty(),
    };
    assert(cs.len() == 1);
    assert(cs[0] == Constraint::Fields(pairs, closed));
    let sh = sp_check_shape(ctx0.shape, ShapeV::Struct(closed))->Ok_0;
    let ctx1 = CtxV { shape: Option::Some(sh), fields: ctx0.fields, imports: ctx0.imports };
    lemma_fields_named(lang, pairs@, 0, ctx1, c1, sample);
    let st1 = sp_fields(lang, pairs@, 0, ctx1, c1, sample)->Ok_0;
    assert(st1.ctx.fields =~= named_fields_list(lang, pairs@, 0));
    assert(st1.ctx.imports =~= named_imports(pairs@, 0));
    let st2 = sp_constraints(lang, cs, 1, st1.ctx, st1.cnt, sample)->Ok_0;
    assert(st1.files + st2.files =~= Seq::<FileV>::empty());
    let whole = sp_constraints(lang, cs, 0, ctx0, c1, sample)->Ok_0;
    assert(whole.ctx == st1.ctx);
    let o = sp_gen_td(lang, td, cnt, root, sample)->Ok_0;
    assert(o.files.len() == 1);
}

/// Anonymous naming is deterministic and monotonic: a schema run that
/// starts with counter value `cnt` and succeeds allocates exactly the names
/// `AnonymousType<cnt+1>` onward, one per anonymous definition in
/// depth-first encounter order, and leaves the counter advanced by their
/// number, so no name is ever reused, within a schema or across schemas
/// processed by the same generator.
pub proof fn lemma_anonymous_naming(
    lang: Lang,
    tds: Seq<TypeDef>,
    cnt: int,
    sample: Option<Seq<char>>,
)
    ensures
        sp_schema(lang, tds, 0, cnt, sample) matches Result::Ok(run) ==> run.cnt == cnt
            + anon_count_tds(tds, 0) && run.anons == anon_range(cnt, anon_count_tds(tds, 0)),
{
    lemma_cnt_schema(lang, tds, 0, cnt, sample);
}

/// A generated type definition's own file comes last among the files it
/// plans: every file of its anonymous children precedes it, so in the
/// module registry a child's stem stands before its referencing parent's.
pub proof fn lemma_children_precede_parent(
    lang: Lang,
    td: TypeDef,
    cnt: int,
    root: bool,
    sample: Option<Seq<char>>,
)
    ensures
        sp_gen_td(lang, td, cnt, root, sample) matches Result::Ok(o) ==> o.files.len() >= 1
            && o.files.last().stem == file_stem_of(lang, o.name) && o.files.last().target_kind_name
            == upper_camel_of(o.name),
{
}

/// The module index lists every planned file's stem exactly once, in
/// generation order: it has one entry per file and the entry at each
/// position is that file's stem.
pub proof fn lemma_module_index_complete(files: Seq<FileV>)
    ensures
        stems_of(files).len() == files.len(),
        forall|i: int| 0 <= i < files.len() ==> stems_of(files)[i] == #[trigger] files[i].stem,
{
}

} // verus!
