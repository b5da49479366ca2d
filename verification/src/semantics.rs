//! What the generated function computes, and the laws that hold of it.
//!
//! An instance of the record is a map from field names to field values. The
//! selection primitive of the element types is a parameter: its result is
//! taken to depend on the element type, the selector and the two values.
//! Equality of instances is equality of the maps.

use vstd::prelude::*;
use crate::assemble::{
    array_group, assembled, binding_of, fragment_of, fragments_of, scalar_group,
};
use crate::descriptor::{FieldTypeModel, TypeDescriptorModel};
use crate::generated::{FieldBindingModel, FragmentModel, GeneratedFunctionModel};
use crate::naming::{law_local_names_are_distinct, local_name};

verus! {

/// The value of a field: one element, or the elements of an array.
pub enum FieldValue<V> {
    One(V),
    Many(Seq<V>),
}

/// The element of a scalar field value.
pub open spec fn element_of<V>(value: FieldValue<V>) -> V {
    match value {
        FieldValue::One(v) => v,
        FieldValue::Many(_) => arbitrary(),
    }
}

/// The elements of an array field value.
pub open spec fn elements_of<V>(value: FieldValue<V>) -> Seq<V> {
    match value {
        FieldValue::One(_) => Seq::empty(),
        FieldValue::Many(vs) => vs,
    }
}

/// The first `n` slots selected one after the other, in storage order; the
/// first failure ends the selection.
pub open spec fn slots_selected<V, F>(
    select: spec_fn(Seq<char>, bool, V, V) -> Result<V, F>,
    element: Seq<char>,
    flag: bool,
    xs: Seq<V>,
    ys: Seq<V>,
    n: nat,
) -> Result<Seq<V>, F>
    decreases n,
{
    if n == 0 {
        Ok(Seq::empty())
    } else {
        match slots_selected(select, element, flag, xs, ys, (n - 1) as nat) {
            Err(failure) => Err(failure),
            Ok(done) => match select(element, flag, xs[n - 1], ys[n - 1]) {
                Err(failure) => Err(failure),
                Ok(v) => Ok(done.push(v)),
            },
        }
    }
}

/// The selection between two values of a field of the given class.
pub open spec fn field_selected<V, F>(
    select: spec_fn(Seq<char>, bool, V, V) -> Result<V, F>,
    ty: FieldTypeModel,
    flag: bool,
    x: FieldValue<V>,
    y: FieldValue<V>,
) -> Result<FieldValue<V>, F> {
    match ty {
        FieldTypeModel::Scalar(element) => match select(
            element,
            flag,
            element_of(x),
            element_of(y),
        ) {
            Ok(v) => Ok(FieldValue::One(v)),
            Err(failure) => Err(failure),
        },
        FieldTypeModel::FixedArray(element, length) => match slots_selected(
            select,
            element,
            flag,
            elements_of(x),
            elements_of(y),
            length,
        ) {
            Ok(vs) => Ok(FieldValue::Many(vs)),
            Err(failure) => Err(failure),
        },
    }
}

/// The local values after the fragments have run in order, or the first
/// failure. A later fragment shadows an earlier local of the same name.
pub open spec fn fragments_run<V, F>(
    fragments: Seq<FragmentModel>,
    select: spec_fn(Seq<char>, bool, V, V) -> Result<V, F>,
    flag: bool,
    a: Map<Seq<char>, FieldValue<V>>,
    b: Map<Seq<char>, FieldValue<V>>,
) -> Result<Map<Seq<char>, FieldValue<V>>, F>
    decreases fragments.len(),
{
    if fragments.len() == 0 {
        Ok(Map::empty())
    } else {
        let last = fragments.last();
        match fragments_run(fragments.drop_last(), select, flag, a, b) {
            Err(failure) => Err(failure),
            Ok(locals) => match field_selected(select, last.ty, flag, a[last.field], b[last.field]) {
                Err(failure) => Err(failure),
                Ok(value) => Ok(locals.insert(last.local, value)),
            },
        }
    }
}

/// The instance that the constructor call builds from the local values.
pub open spec fn constructed<V>(
    bindings: Seq<FieldBindingModel>,
    locals: Map<Seq<char>, FieldValue<V>>,
) -> Map<Seq<char>, FieldValue<V>>
    decreases bindings.len(),
{
    if bindings.len() == 0 {
        Map::empty()
    } else {
        let last = bindings.last();
        constructed(bindings.drop_last(), locals).insert(last.field, locals[last.local])
    }
}

/// What the generated function returns on a selector and two instances:
/// the first instance where the two are equal; else the first failure of a
/// fragment, the array fragments running before the scalar ones; else the
/// constructed instance.
pub open spec fn selected<V, F>(
    g: GeneratedFunctionModel,
    select: spec_fn(Seq<char>, bool, V, V) -> Result<V, F>,
    flag: bool,
    a: Map<Seq<char>, FieldValue<V>>,
    b: Map<Seq<char>, FieldValue<V>>,
) -> Result<Map<Seq<char>, FieldValue<V>>, F> {
    if a == b {
        Ok(a)
    } else {
        match fragments_run(g.array_fragments + g.scalar_fragments, select, flag, a, b) {
            Err(failure) => Err(failure),
            Ok(locals) => Ok(constructed(g.bindings, locals)),
        }
    }
}

/// No two fields of the descriptor have the same name.
pub open spec fn field_names_distinct(descriptor: TypeDescriptorModel) -> bool {
    forall|i: int, j: int|
        0 <= i < j < descriptor.fields.len() ==> descriptor.fields[i].name
            != descriptor.fields[j].name
}

/// No two fragments bind the same local name.
pub open spec fn locals_distinct(fragments: Seq<FragmentModel>) -> bool {
    forall|i: int, j: int|
        0 <= i < j < fragments.len() ==> fragments[i].local != fragments[j].local
}

/// Every slot of a successful selection of slots is the selection of the
/// two elements at that slot.
pub proof fn lemma_slots_selected<V, F>(
    select: spec_fn(Seq<char>, bool, V, V) -> Result<V, F>,
    element: Seq<char>,
    flag: bool,
    xs: Seq<V>,
    ys: Seq<V>,
    n: nat,
)
    requires
        slots_selected(select, element, flag, xs, ys, n) is Ok,
    ensures
        slots_selected(select, element, flag, xs, ys, n)->Ok_0.len() == n,
        forall|k: int|
            0 <= k < n ==> select(element, flag, xs[k], ys[k]) == Ok::<V, F>(
                #[trigger] slots_selected(select, element, flag, xs, ys, n)->Ok_0[k],
            ),
    decreases n,
{
    if n > 0 {
        lemma_slots_selected(select, element, flag, xs, ys, (n - 1) as nat);
    }
}

/// After a successful run of fragments with distinct locals, every
/// fragment's local holds the selection of its field.
pub proof fn lemma_fragments_run<V, F>(
    fragments: Seq<FragmentModel>,
    select: spec_fn(Seq<char>, bool, V, V) -> Result<V, F>,
    flag: bool,
    a: Map<Seq<char>, FieldValue<V>>,
    b: Map<Seq<char>, FieldValue<V>>,
)
    requires
        locals_distinct(fragments),
        fragments_run(fragments, select, flag, a, b) is Ok,
    ensures
        forall|k: int|
            0 <= k < fragments.len() ==> field_selected(
                select,
                fragments[k].ty,
                flag,
                a[fragments[k].field],
                b[fragments[k].field],
            ) == Ok::<FieldValue<V>, F>(
                fragments_run(fragments, select, flag, a, b)->Ok_0[#[trigger] fragments[k].local],
            ),
    decreases fragments.len(),
{
    if fragments.len() > 0 {
        let rest = fragments.drop_last();
        assert forall|i: int, j: int| 0 <= i < j < rest.len() implies rest[i].local
            != rest[j].local by {
            assert(rest[i] == fragments[i] && rest[j] == fragments[j]);
        }
        lemma_fragments_run(rest, select, flag, a, b);
        assert forall|k: int| 0 <= k < fragments.len() implies field_selected(
            select,
            fragments[k].ty,
            flag,
            a[fragments[k].field],
            b[fragments[k].field],
        ) == Ok::<FieldValue<V>, F>(
            fragments_run(fragments, select, flag, a, b)->Ok_0[#[trigger] fragments[k].local],
        ) by {
            if k < fragments.len() - 1 {
                assert(rest[k] == fragments[k]);
                assert(fragments[k].local != fragments[fragments.len() - 1].local);
            }
        }
    }
}

/// With distinct field names among the bindings, the constructed instance
/// has exactly the bound fields, each with the value of its local.
pub proof fn lemma_constructed<V>(
    bindings: Seq<FieldBindingModel>,
    locals: Map<Seq<char>, FieldValue<V>>,
)
    requires
        forall|i: int, j: int|
            0 <= i < j < bindings.len() ==> bindings[i].field != bindings[j].field,
    ensures
        forall|k: int|
            0 <= k < bindings.len() ==> constructed(bindings, locals).dom().contains(
                #[trigger] bindings[k].field,
            ) && constructed(bindings, locals)[bindings[k].field] == locals[bindings[k].local],
        forall|name: Seq<char>| #[trigger]
            constructed(bindings, locals).dom().contains(name) ==> exists|k: int|
                0 <= k < bindings.len() && bindings[k].field == name,
    decreases bindings.len(),
{
    if bindings.len() > 0 {
        let rest = bindings.drop_last();
        assert forall|i: int, j: int| 0 <= i < j < rest.len() implies rest[i].field
            != rest[j].field by {
            assert(rest[i] == bindings[i] && rest[j] == bindings[j]);
        }
        lemma_constructed(rest, locals);
        assert forall|k: int| 0 <= k < bindings.len() implies constructed(
            bindings,
            locals,
        ).dom().contains(#[trigger] bindings[k].field) && constructed(
            bindings,
            locals,
        )[bindings[k].field] == locals[bindings[k].local] by {
            if k < bindings.len() - 1 {
                assert(rest[k] == bindings[k]);
                assert(bindings[k].field != bindings[bindings.len() - 1].field);
            }
        }
        assert forall|name: Seq<char>| #[trigger]
            constructed(bindings, locals).dom().contains(name) implies exists|k: int|
            0 <= k < bindings.len() && bindings[k].field == name by {
            if name == bindings.last().field {
                assert(bindings[bindings.len() - 1].field == name);
            } else {
                assert(constructed(rest, locals).dom().contains(name));
                let k = choose|k: int| 0 <= k < rest.len() && rest[k].field == name;
                assert(bindings[k].field == name);
            }
        }
    }
}

/// Filtering keeps the locals of fragments distinct.
pub proof fn lemma_filter_keeps_locals_distinct(
    fragments: Seq<FragmentModel>,
    keep: spec_fn(FragmentModel) -> bool,
)
    requires
        locals_distinct(fragments),
    ensures
        locals_distinct(fragments.filter(keep)),
    decreases fragments.len(),
{
    reveal(Seq::filter);
    if fragments.len() > 0 {
        let rest = fragments.drop_last();
        let last = fragments.last();
        let kept = rest.filter(keep);
        assert forall|i: int, j: int| 0 <= i < j < rest.len() implies rest[i].local
            != rest[j].local by {
            assert(rest[i] == fragments[i] && rest[j] == fragments[j]);
        }
        lemma_filter_keeps_locals_distinct(rest, keep);
        if keep(last) {
            let out = kept.push(last);
            assert forall|i: int, j: int| 0 <= i < j < out.len() implies out[i].local
                != out[j].local by {
                if j < kept.len() {
                    assert(out[i] == kept[i] && out[j] == kept[j]);
                } else {
                    assert(kept.contains(kept[i]));
                    rest.lemma_filter_contains_rev(keep, kept[i]);
                    let m = choose|m: int| 0 <= m < rest.len() && rest[m] == kept[i];
                    assert(fragments[m] == kept[i]);
                    assert(fragments[m].local != fragments[fragments.len() - 1].local);
                }
            }
        }
    }
}

/// The fragments as they are emitted: the array group, then the scalar
/// group.
pub open spec fn emitted(g: GeneratedFunctionModel) -> Seq<FragmentModel> {
    g.array_fragments + g.scalar_fragments
}

/// Of a descriptor with distinct field names, the emitted fragments bind
/// distinct locals, and the fragment of every field is among them.
pub proof fn lemma_emitted(descriptor: TypeDescriptorModel)
    requires
        field_names_distinct(descriptor),
    ensures
        locals_distinct(emitted(assembled(descriptor))),
        forall|i: int|
            0 <= i < descriptor.fields.len() ==> emitted(assembled(descriptor)).contains(
                #[trigger] fragment_of(descriptor.fields[i]),
            ),
{
    let fields = descriptor.fields;
    let all = fragments_of(fields);
    let arrays = all.filter(array_group());
    let scalars = all.filter(scalar_group());
    let out = arrays + scalars;
    assert forall|i: int, j: int| 0 <= i < j < all.len() implies all[i].local
        != all[j].local by {
        if all[i].local == all[j].local {
            law_local_names_are_distinct(fields[i].name, fields[j].name);
        }
    }
    lemma_filter_keeps_locals_distinct(all, array_group());
    lemma_filter_keeps_locals_distinct(all, scalar_group());
    assert forall|i: int, j: int| 0 <= i < j < out.len() implies out[i].local
        != out[j].local by {
        if i < arrays.len() && j >= arrays.len() {
            let x = arrays[i];
            let y = scalars[j - arrays.len()];
            assert(out[i] == x && out[j] == y);
            all.lemma_filter_pred(array_group(), i);
            all.lemma_filter_pred(scalar_group(), j - arrays.len());
            assert(arrays.contains(x));
            assert(scalars.contains(y));
            all.lemma_filter_contains_rev(array_group(), x);
            all.lemma_filter_contains_rev(scalar_group(), y);
            let m = choose|m: int| 0 <= m < all.len() && all[m] == x;
            let n = choose|n: int| 0 <= n < all.len() && all[n] == y;
            assert(x.ty is FixedArray && y.ty is Scalar);
            if x.local == y.local {
                if m < n {
                    assert(all[m].local != all[n].local);
                } else if n < m {
                    assert(all[n].local != all[m].local);
                }
            }
        } else if j < arrays.len() {
            assert(out[i] == arrays[i] && out[j] == arrays[j]);
        } else {
            assert(out[i] == scalars[i - arrays.len()] && out[j] == scalars[j - arrays.len()]);
        }
    }
    assert forall|i: int| 0 <= i < fields.len() implies out.contains(
        #[trigger] fragment_of(fields[i]),
    ) by {
        let fragment = all[i];
        assert(fragment == fragment_of(fields[i]));
        if fragment.ty is FixedArray {
            all.lemma_filter_contains(array_group(), i);
            let k = choose|k: int| 0 <= k < arrays.len() && arrays[k] == fragment;
            assert(out[k] == fragment);
        } else {
            all.lemma_filter_contains(scalar_group(), i);
            let k = choose|k: int| 0 <= k < scalars.len() && scalars[k] == fragment;
            assert(out[arrays.len() + k] == fragment);
        }
    }
}

/// Selecting between an instance and itself returns that instance, whatever
/// the selector, the selection primitive and the generated function are.
pub proof fn law_equal_inputs_give_the_input<V, F>(
    g: GeneratedFunctionModel,
    select: spec_fn(Seq<char>, bool, V, V) -> Result<V, F>,
    flag: bool,
    a: Map<Seq<char>, FieldValue<V>>,
)
    ensures
        selected(g, select, flag, a, a) == Ok::<Map<Seq<char>, FieldValue<V>>, F>(a),
{
}

/// Where the function generated for a descriptor with distinct field names
/// returns an instance for two different inputs, that instance has exactly
/// the descriptor's fields, and each of them is the selection between that
/// same field of the two inputs: no other field enters it.
pub proof fn law_fields_are_selected_independently<V, F>(
    descriptor: TypeDescriptorModel,
    select: spec_fn(Seq<char>, bool, V, V) -> Result<V, F>,
    flag: bool,
    a: Map<Seq<char>, FieldValue<V>>,
    b: Map<Seq<char>, FieldValue<V>>,
)
    requires
        field_names_distinct(descriptor),
        a != b,
        selected(assembled(descriptor), select, flag, a, b) is Ok,
    ensures
        forall|i: int|
            0 <= i < descriptor.fields.len() ==> {
                let field = #[trigger] descriptor.fields[i];
                let result = selected(assembled(descriptor), select, flag, a, b)->Ok_0;
                &&& result.dom().contains(field.name)
                &&& field_selected(select, field.ty, flag, a[field.name], b[field.name]) == Ok::<
                    FieldValue<V>,
                    F,
                >(result[field.name])
            },
        forall|name: Seq<char>| #[trigger]
            (selected(assembled(descriptor), select, flag, a, b)->Ok_0).dom().contains(name)
                ==> exists|i: int|
                0 <= i < descriptor.fields.len() && descriptor.fields[i].name == name,
{
    let g = assembled(descriptor);
    let fields = descriptor.fields;
    let out = emitted(g);
    let locals = fragments_run(out, select, flag, a, b)->Ok_0;
    let result = constructed(g.bindings, locals);
    lemma_emitted(descriptor);
    lemma_fragments_run(out, select, flag, a, b);
    lemma_constructed(g.bindings, locals);
    assert forall|i: int| 0 <= i < fields.len() implies {
        let field = #[trigger] fields[i];
        &&& result.dom().contains(field.name)
        &&& field_selected(select, field.ty, flag, a[field.name], b[field.name]) == Ok::<
            FieldValue<V>,
            F,
        >(result[field.name])
    } by {
        let fragment = fragment_of(fields[i]);
        assert(out.contains(fragment));
        let k = choose|k: int| 0 <= k < out.len() && out[k] == fragment;
        assert(out[k].local == local_name(fields[i].name));
        assert(g.bindings[i] == binding_of(fields[i]));
        assert(g.bindings[i].field == fields[i].name);
    }
    assert forall|name: Seq<char>| #[trigger] result.dom().contains(name) implies exists|i: int|
        0 <= i < fields.len() && fields[i].name == name by {
        let k = choose|k: int| 0 <= k < g.bindings.len() && g.bindings[k].field == name;
        assert(fields[k].name == name);
    }
}

/// Each slot of an array field of the result is the selection between the
/// two elements at that slot of the inputs' field: no other slot enters it.
pub proof fn law_array_slots_are_selected_independently<V, F>(
    descriptor: TypeDescriptorModel,
    select: spec_fn(Seq<char>, bool, V, V) -> Result<V, F>,
    flag: bool,
    a: Map<Seq<char>, FieldValue<V>>,
    b: Map<Seq<char>, FieldValue<V>>,
    i: int,
    slot: int,
)
    requires
        field_names_distinct(descriptor),
        a != b,
        selected(assembled(descriptor), select, flag, a, b) is Ok,
        0 <= i < descriptor.fields.len(),
        descriptor.fields[i].ty is FixedArray,
        0 <= slot < descriptor.fields[i].ty->FixedArray_1,
    ensures
        ({
            let field = descriptor.fields[i];
            let result = selected(assembled(descriptor), select, flag, a, b)->Ok_0;
            &&& result[field.name] is Many
            &&& elements_of(result[field.name]).len() == field.ty->FixedArray_1
            &&& select(
                field.ty->FixedArray_0,
                flag,
                elements_of(a[field.name])[slot],
                elements_of(b[field.name])[slot],
            ) == Ok::<V, F>(elements_of(result[field.name])[slot])
        }),
{
    let field = descriptor.fields[i];
    law_fields_are_selected_independently(descriptor, select, flag, a, b);
    assert(descriptor.fields[i] == field);
    lemma_slots_selected(
        select,
        field.ty->FixedArray_0,
        flag,
        elements_of(a[field.name]),
        elements_of(b[field.name]),
        field.ty->FixedArray_1,
    );
}

/// The value of a field of the result depends on that field of the two
/// inputs and on the selector alone: two runs on different pairs of inputs
/// that agree on one field give the same value for it.
pub proof fn law_other_fields_do_not_matter<V, F>(
    descriptor: TypeDescriptorModel,
    select: spec_fn(Seq<char>, bool, V, V) -> Result<V, F>,
    flag: bool,
    a1: Map<Seq<char>, FieldValue<V>>,
    b1: Map<Seq<char>, FieldValue<V>>,
    a2: Map<Seq<char>, FieldValue<V>>,
    b2: Map<Seq<char>, FieldValue<V>>,
    i: int,
)
    requires
        field_names_distinct(descriptor),
        0 <= i < descriptor.fields.len(),
        a1 != b1,
        a2 != b2,
        a1[descriptor.fields[i].name] == a2[descriptor.fields[i].name],
        b1[descriptor.fields[i].name] == b2[descriptor.fields[i].name],
        selected(assembled(descriptor), select, flag, a1, b1) is Ok,
        selected(assembled(descriptor), select, flag, a2, b2) is Ok,
    ensures
        (selected(assembled(descriptor), select, flag, a1, b1)->Ok_0)[descriptor.fields[i].name]
            == (selected(assembled(descriptor), select, flag, a2, b2)->Ok_0)[descriptor.fields[i].name],
{
    law_fields_are_selected_independently(descriptor, select, flag, a1, b1);
    law_fields_are_selected_independently(descriptor, select, flag, a2, b2);
    let field = descriptor.fields[i];
    assert(descriptor.fields[i] == field);
}

/// The selection of the field that a fragment stands for.
pub open spec fn fragment_selected<V, F>(
    fragment: FragmentModel,
    select: spec_fn(Seq<char>, bool, V, V) -> Result<V, F>,
    flag: bool,
    a: Map<Seq<char>, FieldValue<V>>,
    b: Map<Seq<char>, FieldValue<V>>,
) -> Result<FieldValue<V>, F> {
    field_selected(select, fragment.ty, flag, a[fragment.field], b[fragment.field])
}

/// A run of fragments fails exactly where the selection of some fragment
/// fails, and then with the failure of the first such fragment.
pub proof fn lemma_fragments_run_failure<V, F>(
    fragments: Seq<FragmentModel>,
    select: spec_fn(Seq<char>, bool, V, V) -> Result<V, F>,
    flag: bool,
    a: Map<Seq<char>, FieldValue<V>>,
    b: Map<Seq<char>, FieldValue<V>>,
)
    ensures
        fragments_run(fragments, select, flag, a, b) is Err ==> exists|k: int|
            {
                &&& 0 <= k < fragments.len()
                &&& #[trigger] fragment_selected(fragments[k], select, flag, a, b) == Err::<
                    FieldValue<V>,
                    F,
                >(fragments_run(fragments, select, flag, a, b)->Err_0)
                &&& forall|j: int|
                    0 <= j < k ==> (#[trigger] fragment_selected(
                        fragments[j],
                        select,
                        flag,
                        a,
                        b,
                    )) is Ok
            },
        fragments_run(fragments, select, flag, a, b) is Ok ==> forall|j: int|
            0 <= j < fragments.len() ==> (#[trigger] fragment_selected(
                fragments[j],
                select,
                flag,
                a,
                b,
            )) is Ok,
    decreases fragments.len(),
{
    if fragments.len() > 0 {
        let rest = fragments.drop_last();
        let last = fragments.len() - 1;
        lemma_fragments_run_failure(rest, select, flag, a, b);
        assert forall|j: int| 0 <= j < last implies rest[j] == fragments[j] by {}
        match fragments_run(rest, select, flag, a, b) {
            Err(failure) => {
                let k = choose|k: int|
                    {
                        &&& 0 <= k < rest.len()
                        &&& #[trigger] fragment_selected(rest[k], select, flag, a, b) == Err::<
                            FieldValue<V>,
                            F,
                        >(failure)
                        &&& forall|j: int|
                            0 <= j < k ==> (#[trigger] fragment_selected(
                                rest[j],
                                select,
                                flag,
                                a,
                                b,
                            )) is Ok
                    };
                assert(rest[k] == fragments[k]);
                assert forall|j: int| 0 <= j < k implies (#[trigger] fragment_selected(
                    fragments[j],
                    select,
                    flag,
                    a,
                    b,
                )) is Ok by {
                    assert(rest[j] == fragments[j]);
                    assert(fragment_selected(rest[j], select, flag, a, b) is Ok);
                }
                assert(fragment_selected(fragments[k], select, flag, a, b) == Err::<
                    FieldValue<V>,
                    F,
                >(fragments_run(fragments, select, flag, a, b)->Err_0));
            },
            Ok(locals) => {
                assert forall|j: int| 0 <= j < last implies (#[trigger] fragment_selected(
                    fragments[j],
                    select,
                    flag,
                    a,
                    b,
                )) is Ok by {
                    assert(rest[j] == fragments[j]);
                    assert(fragment_selected(rest[j], select, flag, a, b) is Ok);
                }
                if fragments_run(fragments, select, flag, a, b) is Err {
                    assert(fragment_selected(fragments[last], select, flag, a, b) == Err::<
                        FieldValue<V>,
                        F,
                    >(fragments_run(fragments, select, flag, a, b)->Err_0));
                } else {
                    assert(fragment_selected(fragments[last], select, flag, a, b) is Ok);
                }
            },
        }
    }
}

/// The generated function fails exactly where its inputs differ and the
/// selection of some field fails, and then with the failure of the first
/// such field in the order in which the fragments are emitted; so it never
/// returns an instance after a failure.
pub proof fn law_first_failure_is_handed_on<V, F>(
    g: GeneratedFunctionModel,
    select: spec_fn(Seq<char>, bool, V, V) -> Result<V, F>,
    flag: bool,
    a: Map<Seq<char>, FieldValue<V>>,
    b: Map<Seq<char>, FieldValue<V>>,
)
    ensures
        selected(g, select, flag, a, b) is Err ==> a != b && exists|k: int|
            {
                &&& 0 <= k < emitted(g).len()
                &&& #[trigger] fragment_selected(emitted(g)[k], select, flag, a, b) == Err::<
                    FieldValue<V>,
                    F,
                >(selected(g, select, flag, a, b)->Err_0)
                &&& forall|j: int|
                    0 <= j < k ==> (#[trigger] fragment_selected(
                        emitted(g)[j],
                        select,
                        flag,
                        a,
                        b,
                    )) is Ok
            },
        selected(g, select, flag, a, b) is Ok && a != b ==> forall|j: int|
            0 <= j < emitted(g).len() ==> (#[trigger] fragment_selected(
                emitted(g)[j],
                select,
                flag,
                a,
                b,
            )) is Ok,
{
    lemma_fragments_run_failure(emitted(g), select, flag, a, b);
}

/// The selection primitive returns the value itself where both values are
/// the same.
pub open spec fn selection_is_idempotent<V, F>(
    select: spec_fn(Seq<char>, bool, V, V) -> Result<V, F>,
) -> bool {
    forall|element: Seq<char>, flag: bool, x: V| #[trigger]
        select(element, flag, x, x) == Ok::<V, F>(x)
}

/// The value fits the class of a field: one element for a scalar, as many
/// elements as the array is long for an array.
pub open spec fn value_fits<V>(ty: FieldTypeModel, value: FieldValue<V>) -> bool {
    match ty {
        FieldTypeModel::Scalar(_) => value is One,
        FieldTypeModel::FixedArray(_, length) => value is Many && elements_of(value).len()
            == length,
    }
}

/// The instance has a fitting value for every field of the descriptor.
pub open spec fn instance_fits<V>(
    descriptor: TypeDescriptorModel,
    a: Map<Seq<char>, FieldValue<V>>,
) -> bool {
    forall|i: int|
        0 <= i < descriptor.fields.len() ==> value_fits(
            (#[trigger] descriptor.fields[i]).ty,
            a[descriptor.fields[i].name],
        )
}

/// With an idempotent primitive, selecting the first `n` slots between a
/// sequence and itself gives its first `n` elements.
pub proof fn lemma_slots_selected_idempotent<V, F>(
    select: spec_fn(Seq<char>, bool, V, V) -> Result<V, F>,
    element: Seq<char>,
    flag: bool,
    xs: Seq<V>,
    n: nat,
)
    requires
        selection_is_idempotent(select),
        n <= xs.len(),
    ensures
        slots_selected(select, element, flag, xs, xs, n) == Ok::<Seq<V>, F>(xs.take(n as int)),
    decreases n,
{
    if n == 0 {
        assert(xs.take(0) =~= Seq::<V>::empty());
    } else {
        lemma_slots_selected_idempotent(select, element, flag, xs, (n - 1) as nat);
        assert(select(element, flag, xs[n - 1], xs[n - 1]) == Ok::<V, F>(xs[n - 1]));
        assert(xs.take(n - 1).push(xs[n - 1]) =~= xs.take(n as int));
    }
}

/// The short cut for equal inputs changes no result: where the selection
/// primitive is idempotent and the instance fits the descriptor, each field
/// of the instance that is returned is what the selection between that
/// field and itself gives.
pub proof fn law_short_cut_agrees_with_selection<V, F>(
    descriptor: TypeDescriptorModel,
    select: spec_fn(Seq<char>, bool, V, V) -> Result<V, F>,
    flag: bool,
    a: Map<Seq<char>, FieldValue<V>>,
)
    requires
        selection_is_idempotent(select),
        instance_fits(descriptor, a),
    ensures
        forall|i: int|
            0 <= i < descriptor.fields.len() ==> {
                let field = #[trigger] descriptor.fields[i];
                field_selected(select, field.ty, flag, a[field.name], a[field.name]) == Ok::<
                    FieldValue<V>,
                    F,
                >((selected(assembled(descriptor), select, flag, a, a)->Ok_0)[field.name])
            },
{
    assert forall|i: int| 0 <= i < descriptor.fields.len() implies {
        let field = #[trigger] descriptor.fields[i];
        field_selected(select, field.ty, flag, a[field.name], a[field.name]) == Ok::<
            FieldValue<V>,
            F,
        >(a[field.name])
    } by {
        let field = descriptor.fields[i];
        let value = a[field.name];
        assert(value_fits(field.ty, value));
        match field.ty {
            FieldTypeModel::Scalar(element) => {
                assert(select(element, flag, element_of(value), element_of(value)) == Ok::<V, F>(
                    element_of(value),
                ));
            },
            FieldTypeModel::FixedArray(element, length) => {
                let xs = elements_of(value);
                lemma_slots_selected_idempotent(select, element, flag, xs, length);
                assert(xs.take(length as int) =~= xs);
            },
        }
    }
}

} // verus!
