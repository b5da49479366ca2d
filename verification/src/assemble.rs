//! Synthesis of the per-field selection code and assembly of the generated
//! function.

use vstd::prelude::*;
use crate::classify::{describe, described};
use crate::descriptor::{
    Diagnostic, DiagnosticModel, FieldDescriptor, FieldDescriptorModel, FieldType,
    TypeDefinition, TypeDefinitionModel, TypeDescriptor, TypeDescriptorModel,
    fields_model,
};
use crate::generated::{
    FieldBinding, FieldBindingModel, Fragment, FragmentModel, GeneratedFunction,
    GeneratedFunctionModel, bindings_model, fragments_model,
};
use crate::generics::{resolve_generics, resolved};
use crate::naming::{bracket_free, has_no_bracket, is_identifier, local_name, local_name_of};

verus! {

/// The selection code of a field.
pub open spec fn fragment_of(field: FieldDescriptorModel) -> FragmentModel {
    FragmentModel { field: field.name, local: local_name(field.name), ty: field.ty }
}

/// The binding of a field.
pub open spec fn binding_of(field: FieldDescriptorModel) -> FieldBindingModel {
    FieldBindingModel { field: field.name, local: local_name(field.name) }
}

/// The selection code of every field, in descriptor order.
pub open spec fn fragments_of(fields: Seq<FieldDescriptorModel>) -> Seq<FragmentModel> {
    Seq::new(fields.len(), |i: int| fragment_of(fields[i]))
}

/// The binding of every field, in descriptor order.
pub open spec fn bindings_of(fields: Seq<FieldDescriptorModel>) -> Seq<FieldBindingModel> {
    Seq::new(fields.len(), |i: int| binding_of(fields[i]))
}

/// The fragments of the array group.
pub open spec fn array_group() -> spec_fn(FragmentModel) -> bool {
    |fragment: FragmentModel| fragment.ty is FixedArray
}

/// The fragments of the scalar group.
pub open spec fn scalar_group() -> spec_fn(FragmentModel) -> bool {
    |fragment: FragmentModel| fragment.ty is Scalar
}

/// The function generated for a descriptor: the array fragments and the
/// scalar fragments each in descriptor order, one binding per field in
/// descriptor order, and the resolved generic parameters.
pub open spec fn assembled(descriptor: TypeDescriptorModel) -> GeneratedFunctionModel {
    GeneratedFunctionModel {
        subject: descriptor.name,
        generics: resolved(descriptor.generics),
        array_fragments: fragments_of(descriptor.fields).filter(array_group()),
        scalar_fragments: fragments_of(descriptor.fields).filter(scalar_group()),
        bindings: bindings_of(descriptor.fields),
    }
}

/// No local name of the descriptor holds a bracket.
pub open spec fn locals_bracket_free(descriptor: TypeDescriptorModel) -> bool {
    forall|i: int|
        0 <= i < descriptor.fields.len() ==> bracket_free(
            local_name((#[trigger] descriptor.fields[i]).name),
        )
}

/// What is generated for a definition: the diagnostic of its description,
/// or the function assembled from its descriptor.
pub open spec fn generated(def: TypeDefinitionModel) -> Result<
    GeneratedFunctionModel,
    DiagnosticModel,
> {
    match described(def) {
        Ok(descriptor) => Ok(assembled(descriptor)),
        Err(diagnostic) => Err(diagnostic),
    }
}

/// The view of a result of generation.
pub open spec fn generation_model(r: Result<GeneratedFunction, Diagnostic>) -> Result<
    GeneratedFunctionModel,
    DiagnosticModel,
> {
    match r {
        Ok(g) => Ok(g@),
        Err(e) => Err(e@),
    }
}

/// Filtering a sequence with one more element at its end.
pub proof fn lemma_filter_push<A>(s: Seq<A>, last: A, keep: spec_fn(A) -> bool)
    ensures
        s.push(last).filter(keep) == if keep(last) {
            s.filter(keep).push(last)
        } else {
            s.filter(keep)
        },
{
    reveal(Seq::filter);
    assert(s.push(last).drop_last() =~= s);
}

/// A copy of a field type.
pub fn copy_field_type(ty: &FieldType) -> (copy: FieldType)
    ensures
        copy@ == ty@,
{
    match ty {
        FieldType::Scalar(element) => FieldType::Scalar(element.clone()),
        FieldType::FixedArray(element, length) => FieldType::FixedArray(element.clone(), *length),
    }
}

/// Synthesizes the selection code of one field and its binding.
pub fn synthesize_field(field: &FieldDescriptor) -> (r: (Fragment, FieldBinding))
    ensures
        r.0@ == fragment_of(field@),
        r.1@ == binding_of(field@),
{
    let fragment = Fragment {
        field: field.name.clone(),
        local: local_name_of(&field.name),
        ty: copy_field_type(&field.ty),
    };
    let binding = FieldBinding { field: field.name.clone(), local: local_name_of(&field.name) };
    (fragment, binding)
}

/// Assembles the generated function of a descriptor. The local names are
/// taken as they come: whether they read as identifiers is not tested here.
pub fn assemble(descriptor: &TypeDescriptor) -> (g: GeneratedFunction)
    ensures
        g@ == assembled(descriptor@),
{
    let ghost fields = fields_model(descriptor.fields@);
    let mut array_fragments: Vec<Fragment> = Vec::new();
    let mut scalar_fragments: Vec<Fragment> = Vec::new();
    let mut bindings: Vec<FieldBinding> = Vec::new();
    let mut i: usize = 0;
    proof {
        reveal(Seq::filter);
        assert(fragments_of(fields.take(0)).filter(array_group()) =~= Seq::empty());
        assert(fragments_of(fields.take(0)).filter(scalar_group()) =~= Seq::empty());
        assert(fragments_model(array_fragments@) =~= Seq::empty());
        assert(fragments_model(scalar_fragments@) =~= Seq::empty());
    }
    while i < descriptor.fields.len()
        invariant
            i <= descriptor.fields.len(),
            fields == fields_model(descriptor.fields@),
            bindings.len() == i,
            forall|j: int| 0 <= j < i ==> (#[trigger] bindings[j])@ == binding_of(fields[j]),
            fragments_model(array_fragments@) == fragments_of(fields.take(i as int)).filter(
                array_group(),
            ),
            fragments_model(scalar_fragments@) == fragments_of(fields.take(i as int)).filter(
                scalar_group(),
            ),
        decreases descriptor.fields.len() - i,
    {
        let field = &descriptor.fields[i];
        let (fragment, binding) = synthesize_field(field);
        proof {
            let done = fragments_of(fields.take(i as int));
            assert(fields[i as int] == field@);
            assert(fragments_of(fields.take(i + 1)) =~= done.push(fragment@));
            lemma_filter_push(done, fragment@, array_group());
            lemma_filter_push(done, fragment@, scalar_group());
            assert(fragments_model(array_fragments@.push(fragment)) =~= fragments_model(
                array_fragments@,
            ).push(fragment@));
            assert(fragments_model(scalar_fragments@.push(fragment)) =~= fragments_model(
                scalar_fragments@,
            ).push(fragment@));
        }
        match &field.ty {
            FieldType::FixedArray(_, _) => array_fragments.push(fragment),
            FieldType::Scalar(_) => scalar_fragments.push(fragment),
        }
        bindings.push(binding);
        i += 1;
    }
    proof {
        assert(fields.take(fields.len() as int) =~= fields);
        assert(bindings_model(bindings@) =~= bindings_of(fields));
    }
    GeneratedFunction {
        subject: descriptor.name.clone(),
        generics: resolve_generics(&descriptor.generics),
        array_fragments,
        scalar_fragments,
        bindings,
    }
}

/// Generates the function of a type definition, or says why there is none.
/// The local names are taken as they come: whether they read as identifiers
/// is not tested here.
pub fn derive_select(def: &TypeDefinition) -> (r: Result<GeneratedFunction, Diagnostic>)
    ensures
        generation_model(r) == generated(def@),
{
    match describe(def) {
        Ok(descriptor) => Ok(assemble(&descriptor)),
        Err(diagnostic) => Err(diagnostic),
    }
}

/// Asks of every local name, in field order, whether it is free of brackets
/// and whether the identifier parser accepts it, and stops at the first that
/// fails either test. A descriptor without fields is accepted, since
/// nothing is asked. The parser's answers are its own; what holds of every
/// outcome is that an accepted descriptor has no bracket in a local name.
pub fn check_locals(descriptor: &TypeDescriptor) -> (accepted: bool)
    ensures
        descriptor@.fields.len() == 0 ==> accepted,
        accepted ==> locals_bracket_free(descriptor@),
{
    let mut i: usize = 0;
    while i < descriptor.fields.len()
        invariant
            i <= descriptor.fields.len(),
            forall|j: int|
                0 <= j < i ==> bracket_free(
                    local_name((#[trigger] fields_model(descriptor.fields@)[j]).name),
                ),
        decreases descriptor.fields.len() - i,
    {
        let local = local_name_of(&descriptor.fields[i].name);
        assert(local@ == local_name(fields_model(descriptor.fields@)[i as int].name));
        if !has_no_bracket(local.as_str()) {
            return false;
        }
        if !is_identifier(local.as_str()) {
            return false;
        }
        i += 1;
    }
    true
}

/// Assembles the generated function of a descriptor whose local names were
/// accepted, and nothing where they were not.
pub fn assemble_if_accepted(descriptor: &TypeDescriptor, accepted: bool) -> (r: Option<
    GeneratedFunction,
>)
    ensures
        r.is_some() == accepted,
        r.is_some() ==> r.unwrap()@ == assembled(descriptor@),
{
    if accepted {
        Some(assemble(descriptor))
    } else {
        None
    }
}

/// Generates the function of a type definition after testing its local
/// names. A rejected definition gives its diagnostic. A record without
/// fields gives its function, since no name is tested. A descriptor with a
/// bracket in a local name gives `None`, and so does one with a local name
/// that the identifier parser refuses. Whatever is returned as `Some` is
/// what `derive_select` returns.
pub fn try_derive_select(def: &TypeDefinition) -> (r: Option<
    Result<GeneratedFunction, Diagnostic>,
>)
    ensures
        described(def@) is Err ==> r.is_some(),
        described(def@) is Ok && described(def@)->Ok_0.fields.len() == 0 ==> r.is_some(),
        r.is_some() ==> generation_model(r.unwrap()) == generated(def@),
        described(def@) is Ok && !locals_bracket_free(described(def@)->Ok_0) ==> r.is_none(),
{
    match describe(def) {
        Ok(descriptor) => {
            let accepted = check_locals(&descriptor);
            match assemble_if_accepted(&descriptor, accepted) {
                Some(g) => Some(Ok(g)),
                None => None,
            }
        },
        Err(diagnostic) => Some(Err(diagnostic)),
    }
}

/// Filtering keeps the order: two elements of the filtered sequence stood
/// in the same order in the sequence that was filtered.
pub proof fn lemma_filter_keeps_order<A>(s: Seq<A>, keep: spec_fn(A) -> bool, k1: int, k2: int)
    requires
        0 <= k1 < k2 < s.filter(keep).len(),
    ensures
        exists|i1: int, i2: int|
            #![trigger s[i1], s[i2]]
            0 <= i1 < i2 < s.len() && s[i1] == s.filter(keep)[k1] && s[i2] == s.filter(keep)[k2],
    decreases s.len(),
{
    reveal(Seq::filter);
    if s.len() > 0 {
        let rest = s.drop_last();
        let kept = rest.filter(keep);
        if keep(s.last()) && k2 == kept.len() {
            assert(kept.contains(kept[k1]));
            rest.lemma_filter_contains_rev(keep, kept[k1]);
            let m = choose|m: int| 0 <= m < rest.len() && rest[m] == kept[k1];
            assert(s[m] == s.filter(keep)[k1] && s[s.len() - 1] == s.filter(keep)[k2]);
        } else {
            lemma_filter_keeps_order(rest, keep, k1, k2);
            let (i1, i2) = choose|i1: int, i2: int|
                #![trigger rest[i1], rest[i2]]
                0 <= i1 < i2 < rest.len() && rest[i1] == kept[k1] && rest[i2] == kept[k2];
            assert(s[i1] == s.filter(keep)[k1] && s[i2] == s.filter(keep)[k2]);
        }
    }
}

/// The bindings follow the fields: there is one binding per field, at the
/// field's own position, and it binds the field to its local name. So the
/// same fields in another order give the same bindings in that order.
pub proof fn law_bindings_follow_the_fields(descriptor: TypeDescriptorModel)
    ensures
        assembled(descriptor).bindings.len() == descriptor.fields.len(),
        forall|i: int|
            0 <= i < descriptor.fields.len() ==> #[trigger] assembled(descriptor).bindings[i]
                == (FieldBindingModel {
                field: descriptor.fields[i].name,
                local: local_name(descriptor.fields[i].name),
            }),
{
}

/// Each group follows the fields: a group holds the fragments of the fields
/// of its class and no others, and two fragments of one group stand in the
/// order of their fields.
pub proof fn law_groups_follow_the_fields(descriptor: TypeDescriptorModel, k1: int, k2: int)
    ensures
        forall|k: int|
            0 <= k < assembled(descriptor).array_fragments.len() ==> (
            #[trigger] assembled(descriptor).array_fragments[k]).ty is FixedArray,
        forall|k: int|
            0 <= k < assembled(descriptor).scalar_fragments.len() ==> (
            #[trigger] assembled(descriptor).scalar_fragments[k]).ty is Scalar,
        0 <= k1 < k2 < assembled(descriptor).array_fragments.len() ==> exists|i1: int, i2: int|
            #![trigger descriptor.fields[i1], descriptor.fields[i2]]
            0 <= i1 < i2 < descriptor.fields.len() && fragment_of(descriptor.fields[i1])
                == assembled(descriptor).array_fragments[k1] && fragment_of(descriptor.fields[i2])
                == assembled(descriptor).array_fragments[k2],
        0 <= k1 < k2 < assembled(descriptor).scalar_fragments.len() ==> exists|i1: int, i2: int|
            #![trigger descriptor.fields[i1], descriptor.fields[i2]]
            0 <= i1 < i2 < descriptor.fields.len() && fragment_of(descriptor.fields[i1])
                == assembled(descriptor).scalar_fragments[k1] && fragment_of(descriptor.fields[i2])
                == assembled(descriptor).scalar_fragments[k2],
{
    let all = fragments_of(descriptor.fields);
    let g = assembled(descriptor);
    assert forall|k: int| 0 <= k < g.array_fragments.len() implies (
    #[trigger] g.array_fragments[k]).ty is FixedArray by {
        all.lemma_filter_pred(array_group(), k);
    }
    assert forall|k: int| 0 <= k < g.scalar_fragments.len() implies (
    #[trigger] g.scalar_fragments[k]).ty is Scalar by {
        all.lemma_filter_pred(scalar_group(), k);
    }
    if 0 <= k1 < k2 < g.array_fragments.len() {
        lemma_filter_keeps_order(all, array_group(), k1, k2);
        let (i1, i2) = choose|i1: int, i2: int|
            #![trigger all[i1], all[i2]]
            0 <= i1 < i2 < all.len() && all[i1] == g.array_fragments[k1] && all[i2]
                == g.array_fragments[k2];
        assert(fragment_of(descriptor.fields[i1]) == all[i1] && fragment_of(descriptor.fields[i2])
            == all[i2]);
    }
    if 0 <= k1 < k2 < g.scalar_fragments.len() {
        lemma_filter_keeps_order(all, scalar_group(), k1, k2);
        let (i1, i2) = choose|i1: int, i2: int|
            #![trigger all[i1], all[i2]]
            0 <= i1 < i2 < all.len() && all[i1] == g.scalar_fragments[k1] && all[i2]
                == g.scalar_fragments[k2];
        assert(fragment_of(descriptor.fields[i1]) == all[i1] && fragment_of(descriptor.fields[i2])
            == all[i2]);
    }
}

/// Generation is repeatable: whatever two runs on definitions with the same
/// model return, within the contract of `derive_select`, has the same model.
pub proof fn law_generation_is_repeatable(
    first: TypeDefinition,
    second: TypeDefinition,
    first_result: Result<GeneratedFunction, Diagnostic>,
    second_result: Result<GeneratedFunction, Diagnostic>,
)
    requires
        first@ == second@,
        generation_model(first_result) == generated(first@),
        generation_model(second_result) == generated(second@),
    ensures
        generation_model(first_result) == generation_model(second_result),
        first_result is Ok ==> second_result is Ok && first_result->Ok_0@.bindings
            == second_result->Ok_0@.bindings,
{
}

} // verus!
