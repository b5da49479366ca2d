//! The generated function as source text.

use vstd::prelude::*;
use vstd::string::StringExecFns;
use crate::descriptor::{FieldType, FieldTypeModel, GenericParam, GenericParamModel, params_model};
use crate::generated::{
    FieldBinding, FieldBindingModel, Fragment, FragmentModel, GeneratedFunction,
    GeneratedFunctionModel, bindings_model, fragments_model,
};
use crate::generics::texts_model;

verus! {

/// The text of a decimal digit.
pub open spec fn digit_text(d: nat) -> Seq<char> {
    if d == 0 {
        "0"@
    } else if d == 1 {
        "1"@
    } else if d == 2 {
        "2"@
    } else if d == 3 {
        "3"@
    } else if d == 4 {
        "4"@
    } else if d == 5 {
        "5"@
    } else if d == 6 {
        "6"@
    } else if d == 7 {
        "7"@
    } else if d == 8 {
        "8"@
    } else {
        "9"@
    }
}

/// A number in decimal, without leading zeros.
pub open spec fn decimal_text(n: nat) -> Seq<char>
    decreases n,
{
    if n < 10 {
        digit_text(n)
    } else {
        decimal_text(n / 10) + digit_text(n % 10)
    }
}

/// A generic parameter: its identifier and, where it has one, `: ` and its
/// bound; a const parameter has `const ` in front.
pub open spec fn param_text(param: GenericParamModel) -> Seq<char> {
    let named = if param.constant {
        "const "@ + param.identifier
    } else {
        param.identifier
    };
    match param.bound {
        Some(bound) => named + ": "@ + bound,
        None => named,
    }
}

/// The texts joined by `, `.
pub open spec fn joined(texts: Seq<Seq<char>>) -> Seq<char>
    decreases texts.len(),
{
    if texts.len() == 0 {
        Seq::empty()
    } else if texts.len() == 1 {
        texts[0]
    } else {
        joined(texts.drop_last()) + ", "@ + texts.last()
    }
}

/// The texts of the parameters, in order.
pub open spec fn param_texts(params: Seq<GenericParamModel>) -> Seq<Seq<char>> {
    Seq::new(params.len(), |i: int| param_text(params[i]))
}

/// The selection code of a scalar field: one call of the selection
/// primitive of the element type, whose failure is handed on.
pub open spec fn scalar_text(field: Seq<char>, local: Seq<char>, element: Seq<char>) -> Seq<char> {
    "let mut "@ + local + " = "@ + element + "::conditionally_select(cs, flag, &a."@ + field
        + ", &b."@ + field + ")?; "@
}

/// The placeholder that a slot of an array holds before it is selected: the
/// zero of the element type.
pub open spec fn placeholder_text(element: Seq<char>) -> Seq<char> {
    element + "::zero()"@
}

/// The selection code of an array field: a container of placeholders of the
/// field's length, then one call of the selection primitive per slot, in
/// storage order, whose failure is handed on.
pub open spec fn array_text(
    field: Seq<char>,
    local: Seq<char>,
    element: Seq<char>,
    length: nat,
) -> Seq<char> {
    "let mut "@ + local + ": ["@ + element + "; "@ + decimal_text(length) + "] = vec!["@
        + placeholder_text(element) + "; "@ + decimal_text(length) + "].try_into().unwrap(); for (c, (this, other)) in "@
        + local + ".iter_mut().zip(a."@ + field + ".iter().zip(b."@ + field + ".iter())) { *c = "@
        + element + "::conditionally_select(cs, flag, &this, &other)?; } "@
}

/// The selection code of a field.
pub open spec fn fragment_text(fragment: FragmentModel) -> Seq<char> {
    match fragment.ty {
        FieldTypeModel::Scalar(element) => scalar_text(fragment.field, fragment.local, element),
        FieldTypeModel::FixedArray(element, length) => array_text(
            fragment.field,
            fragment.local,
            element,
            length,
        ),
    }
}

/// The selection code of the fragments, one after the other.
pub open spec fn fragments_text(fragments: Seq<FragmentModel>) -> Seq<char>
    decreases fragments.len(),
{
    if fragments.len() == 0 {
        Seq::empty()
    } else {
        fragments_text(fragments.drop_last()) + fragment_text(fragments.last())
    }
}

/// The initializers of the constructor call, one per binding, in order.
pub open spec fn bindings_text(bindings: Seq<FieldBindingModel>) -> Seq<char>
    decreases bindings.len(),
{
    if bindings.len() == 0 {
        Seq::empty()
    } else {
        bindings_text(bindings.drop_last()) + bindings.last().field + ": "@ + bindings.last().local
            + ", "@
    }
}

/// The source text of the generated implementation.
pub open spec fn source_text(g: GeneratedFunctionModel) -> Seq<char> {
    "impl<"@ + joined(param_texts(g.generics.impl_generics)) + "> CircuitSelectable<E> for "@
        + g.subject + "<"@ + joined(g.generics.type_arguments) + "> { fn conditionally_select<"@
        + joined(param_texts(g.generics.function_generics))
        + ">(cs: &mut CS, flag: &Boolean, a: &Self, b: &Self) -> Result<Self, SynthesisError> { if CircuitEq::eq(a, b) { return Ok(a.clone()); } use num_traits::Zero; use std::convert::TryInto; "@
        + fragments_text(g.array_fragments) + fragments_text(g.scalar_fragments) + "Ok(Self { "@
        + bindings_text(g.bindings) + "}) } }"@
}

fn digit(d: usize) -> (text: &'static str)
    requires
        d < 10,
    ensures
        text@ == digit_text(d as nat),
{
    if d == 0 {
        "0"
    } else if d == 1 {
        "1"
    } else if d == 2 {
        "2"
    } else if d == 3 {
        "3"
    } else if d == 4 {
        "4"
    } else if d == 5 {
        "5"
    } else if d == 6 {
        "6"
    } else if d == 7 {
        "7"
    } else if d == 8 {
        "8"
    } else {
        "9"
    }
}

/// Writes a number in decimal.
pub fn render_number(n: usize) -> (out: String)
    ensures
        out@ == decimal_text(n as nat),
    decreases n,
{
    if n < 10 {
        String::from_str(digit(n))
    } else {
        let mut out = render_number(n / 10);
        out.append(digit(n % 10));
        out
    }
}

/// Writes the placeholder of an element type.
pub fn render_placeholder(element: &String) -> (out: String)
    ensures
        out@ == placeholder_text(element@),
{
    let mut out = element.clone();
    out.append("::zero()");
    out
}

/// Writes a generic parameter.
pub fn render_param(param: &GenericParam) -> (out: String)
    ensures
        out@ == param_text(param@),
{
    let mut out = if param.constant {
        String::from_str("const ").concat(param.identifier.as_str())
    } else {
        param.identifier.clone()
    };
    match &param.bound {
        Some(bound) => {
            out.append(": ");
            out.append(bound.as_str());
        },
        None => {},
    }
    out
}

/// Writes generic parameters, joined by `, `.
pub fn render_params(params: &Vec<GenericParam>) -> (out: String)
    ensures
        out@ == joined(param_texts(params_model(params@))),
{
    let ghost texts = param_texts(params_model(params@));
    let mut out = String::new();
    let mut i: usize = 0;
    while i < params.len()
        invariant
            i <= params.len(),
            texts == param_texts(params_model(params@)),
            out@ == joined(texts.take(i as int)),
        decreases params.len() - i,
    {
        let piece = render_param(&params[i]);
        proof {
            assert(texts.take(i + 1).drop_last() =~= texts.take(i as int));
            assert(texts.take(i + 1).last() == piece@);
            assert(Seq::<char>::empty() + piece@ =~= piece@);
        }
        if i > 0 {
            out.append(", ");
        }
        out.append(piece.as_str());
        i += 1;
    }
    assert(texts.take(texts.len() as int) =~= texts);
    out
}

/// Writes names, joined by `, `.
pub fn render_names(names: &Vec<String>) -> (out: String)
    ensures
        out@ == joined(texts_model(names@)),
{
    let ghost texts = texts_model(names@);
    let mut out = String::new();
    let mut i: usize = 0;
    while i < names.len()
        invariant
            i <= names.len(),
            texts == texts_model(names@),
            out@ == joined(texts.take(i as int)),
        decreases names.len() - i,
    {
        proof {
            assert(texts.take(i + 1).drop_last() =~= texts.take(i as int));
            assert(texts.take(i + 1).last() == names[i as int]@);
            assert(Seq::<char>::empty() + names[i as int]@ =~= names[i as int]@);
        }
        if i > 0 {
            out.append(", ");
        }
        out.append(names[i].as_str());
        i += 1;
    }
    assert(texts.take(texts.len() as int) =~= texts);
    out
}

/// Writes the selection code of a field.
pub fn render_fragment(fragment: &Fragment) -> (out: String)
    ensures
        out@ == fragment_text(fragment@),
{
    let mut out = String::from_str("let mut ");
    out.append(fragment.local.as_str());
    match &fragment.ty {
        FieldType::Scalar(element) => {
            out.append(" = ");
            out.append(element.as_str());
            out.append("::conditionally_select(cs, flag, &a.");
            out.append(fragment.field.as_str());
            out.append(", &b.");
            out.append(fragment.field.as_str());
            out.append(")?; ");
        },
        FieldType::FixedArray(element, length) => {
            let number = render_number(*length);
            let placeholder = render_placeholder(element);
            out.append(": [");
            out.append(element.as_str());
            out.append("; ");
            out.append(number.as_str());
            out.append("] = vec![");
            out.append(placeholder.as_str());
            out.append("; ");
            out.append(number.as_str());
            out.append("].try_into().unwrap(); for (c, (this, other)) in ");
            out.append(fragment.local.as_str());
            out.append(".iter_mut().zip(a.");
            out.append(fragment.field.as_str());
            out.append(".iter().zip(b.");
            out.append(fragment.field.as_str());
            out.append(".iter())) { *c = ");
            out.append(element.as_str());
            out.append("::conditionally_select(cs, flag, &this, &other)?; } ");
        },
    }
    out
}

/// Writes the selection code of the fragments, one after the other.
pub fn render_fragments(fragments: &Vec<Fragment>) -> (out: String)
    ensures
        out@ == fragments_text(fragments_model(fragments@)),
{
    let ghost models = fragments_model(fragments@);
    let mut out = String::new();
    let mut i: usize = 0;
    while i < fragments.len()
        invariant
            i <= fragments.len(),
            models == fragments_model(fragments@),
            out@ == fragments_text(models.take(i as int)),
        decreases fragments.len() - i,
    {
        let piece = render_fragment(&fragments[i]);
        proof {
            assert(models.take(i + 1).drop_last() =~= models.take(i as int));
            assert(models.take(i + 1).last() == fragments[i as int]@);
        }
        out.append(piece.as_str());
        i += 1;
    }
    assert(models.take(models.len() as int) =~= models);
    out
}

/// Writes the initializers of the constructor call.
pub fn render_bindings(bindings: &Vec<FieldBinding>) -> (out: String)
    ensures
        out@ == bindings_text(bindings_model(bindings@)),
{
    let ghost models = bindings_model(bindings@);
    let mut out = String::new();
    let mut i: usize = 0;
    while i < bindings.len()
        invariant
            i <= bindings.len(),
            models == bindings_model(bindings@),
            out@ == bindings_text(models.take(i as int)),
        decreases bindings.len() - i,
    {
        proof {
            assert(models.take(i + 1).drop_last() =~= models.take(i as int));
            assert(models.take(i + 1).last() == bindings[i as int]@);
        }
        out.append(bindings[i].field.as_str());
        out.append(": ");
        out.append(bindings[i].local.as_str());
        out.append(", ");
        i += 1;
    }
    assert(models.take(models.len() as int) =~= models);
    out
}

/// Writes the generated implementation as source text.
pub fn render(g: &GeneratedFunction) -> (out: String)
    ensures
        out@ == source_text(g@),
{
    let impl_generics = render_params(&g.generics.impl_generics);
    let type_arguments = render_names(&g.generics.type_arguments);
    let function_generics = render_params(&g.generics.function_generics);
    let arrays = render_fragments(&g.array_fragments);
    let scalars = render_fragments(&g.scalar_fragments);
    let bindings = render_bindings(&g.bindings);
    let mut out = String::from_str("impl<");
    out.append(impl_generics.as_str());
    out.append("> CircuitSelectable<E> for ");
    out.append(g.subject.as_str());
    out.append("<");
    out.append(type_arguments.as_str());
    out.append("> { fn conditionally_select<");
    out.append(function_generics.as_str());
    out.append(
        ">(cs: &mut CS, flag: &Boolean, a: &Self, b: &Self) -> Result<Self, SynthesisError> { if CircuitEq::eq(a, b) { return Ok(a.clone()); } use num_traits::Zero; use std::convert::TryInto; ",
    );
    out.append(arrays.as_str());
    out.append(scalars.as_str());
    out.append("Ok(Self { ");
    out.append(bindings.as_str());
    out.append("}) } }");
    out
}

} // verus!
