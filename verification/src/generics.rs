//! The generic parameters of the generated implementation.
//!
//! A declared type parameter counts as the engine parameter when its bound
//! is spelled `Engine`; aliases and composed bounds are not looked through.

use vstd::prelude::*;
use vstd::string::StringExecFns;
use crate::descriptor::{GenericParam, GenericParamModel, copy_param, params_model};

verus! {

/// The parameter that is injected where the type declares no engine.
pub open spec fn engine_param() -> GenericParamModel {
    GenericParamModel { identifier: "E"@, bound: Some("Engine"@), constant: false }
}

/// The one parameter of the generated function: the constraint system over
/// the engine.
pub open spec fn constraint_system_param() -> GenericParamModel {
    GenericParamModel {
        identifier: "CS"@,
        bound: Some("ConstraintSystem<E>"@),
        constant: false,
    }
}

/// The parameter is a type parameter bounded by the engine capability.
pub open spec fn is_engine_bounded(param: GenericParamModel) -> bool {
    !param.constant && param.bound == Some("Engine"@)
}

/// Some declared parameter is bounded by the engine capability.
pub open spec fn declares_engine(params: Seq<GenericParamModel>) -> bool {
    exists|i: int| 0 <= i < params.len() && is_engine_bounded(#[trigger] params[i])
}

/// The identifiers of the parameters, in order.
pub open spec fn param_names(params: Seq<GenericParamModel>) -> Seq<Seq<char>> {
    Seq::new(params.len(), |i: int| params[i].identifier)
}

/// The views of a list of strings, in order.
pub open spec fn texts_model(texts: Seq<String>) -> Seq<Seq<char>> {
    texts.map_values(|t: String| t@)
}

/// The generic parameters that the generated code is written with.
#[derive(Clone, Debug, PartialEq, Eq)]
pub struct ResolvedGenerics {
    /// Whether the engine parameter had to be added.
    pub injected: bool,
    /// The parameters of the implementation header.
    pub impl_generics: Vec<GenericParam>,
    /// The arguments that the type is referred to with in the header.
    pub type_arguments: Vec<String>,
    /// The parameters of the generated function itself.
    pub function_generics: Vec<GenericParam>,
}

/// The model of a `ResolvedGenerics`: the same data over mathematical sequences and
/// numbers.
pub struct ResolvedGenericsModel {
    pub injected: bool,
    pub impl_generics: Seq<GenericParamModel>,
    pub type_arguments: Seq<Seq<char>>,
    pub function_generics: Seq<GenericParamModel>,
}

impl View for ResolvedGenerics {
    type V = ResolvedGenericsModel;

    open spec fn view(&self) -> ResolvedGenericsModel {
        ResolvedGenericsModel {
            injected: self.injected,
            impl_generics: params_model(self.impl_generics@),
            type_arguments: texts_model(self.type_arguments@),
            function_generics: params_model(self.function_generics@),
        }
    }
}

/// What the declared parameters resolve to. Without a declared engine
/// parameter, `E: Engine` is put in front of the declared ones and `E` leads
/// the type arguments; with one, both lists are the declared ones. The
/// function always has the constraint-system parameter and no other.
pub open spec fn resolved(declared: Seq<GenericParamModel>) -> ResolvedGenericsModel {
    let injected = !declares_engine(declared);
    ResolvedGenericsModel {
        injected,
        impl_generics: if injected {
            seq![engine_param()] + declared
        } else {
            declared
        },
        type_arguments: if injected {
            seq!["E"@] + param_names(declared)
        } else {
            param_names(declared)
        },
        function_generics: seq![constraint_system_param()],
    }
}

/// Tells whether some declared parameter is bounded by the engine
/// capability.
pub fn has_engine_param(declared: &Vec<GenericParam>) -> (found: bool)
    ensures
        found == declares_engine(params_model(declared@)),
{
    let engine = String::from_str("Engine");
    let mut i: usize = 0;
    while i < declared.len()
        invariant
            i <= declared.len(),
            engine@ == "Engine"@,
            forall|j: int| 0 <= j < i ==> !is_engine_bounded(#[trigger] params_model(declared@)[j]),
        decreases declared.len() - i,
    {
        let matches = !declared[i].constant && match &declared[i].bound {
            Some(bound) => bound.eq(&engine),
            None => false,
        };
        assert(matches == is_engine_bounded(params_model(declared@)[i as int]));
        if matches {
            return true;
        }
        i += 1;
    }
    false
}

/// Resolves the generic parameters of the implementation header and of the
/// generated function.
pub fn resolve_generics(declared: &Vec<GenericParam>) -> (r: ResolvedGenerics)
    ensures
        r@ == resolved(params_model(declared@)),
{
    let injected = !has_engine_param(declared);
    let mut impl_generics: Vec<GenericParam> = Vec::new();
    let mut type_arguments: Vec<String> = Vec::new();
    if injected {
        impl_generics.push(
            GenericParam {
                identifier: String::from_str("E"),
                bound: Some(String::from_str("Engine")),
                constant: false,
            },
        );
        type_arguments.push(String::from_str("E"));
    }
    let ghost lead = params_model(impl_generics@);
    let ghost lead_names = texts_model(type_arguments@);
    let mut i: usize = 0;
    while i < declared.len()
        invariant
            i <= declared.len(),
            params_model(impl_generics@) == lead + params_model(declared@).take(i as int),
            texts_model(type_arguments@) == lead_names + param_names(
                params_model(declared@),
            ).take(i as int),
        decreases declared.len() - i,
    {
        let copy = copy_param(&declared[i]);
        let name = declared[i].identifier.clone();
        proof {
            let all = params_model(declared@);
            assert(all.take(i + 1) =~= all.take(i as int).push(all[i as int]));
            assert(param_names(all).take(i + 1) =~= param_names(all).take(i as int).push(
                all[i as int].identifier,
            ));
            assert(params_model(impl_generics@.push(copy)) =~= params_model(impl_generics@).push(
                copy@,
            ));
            assert(texts_model(type_arguments@.push(name)) =~= texts_model(type_arguments@).push(
                name@,
            ));
        }
        impl_generics.push(copy);
        type_arguments.push(name);
        i += 1;
    }
    let mut function_generics: Vec<GenericParam> = Vec::new();
    function_generics.push(
        GenericParam {
            identifier: String::from_str("CS"),
            bound: Some(String::from_str("ConstraintSystem<E>")),
            constant: false,
        },
    );
    proof {
        let all = params_model(declared@);
        assert(all.take(all.len() as int) =~= all);
        assert(param_names(all).take(all.len() as int) =~= param_names(all));
        assert(params_model(function_generics@) =~= seq![constraint_system_param()]);
        if injected {
            assert(lead =~= seq![engine_param()]);
            assert(lead_names =~= seq!["E"@]);
        } else {
            assert(lead + all =~= all);
            assert(lead_names + param_names(all) =~= param_names(all));
        }
    }
    ResolvedGenerics { injected, impl_generics, type_arguments, function_generics }
}

/// Resolution adds the engine parameter at most once. With a declared
/// engine parameter nothing is added. Without one, exactly one is put in
/// front, and no declared parameter is engine-bounded. Either way the
/// resolved parameters declare an engine, so that resolving them again adds
/// nothing and gives the same parameters.
pub proof fn law_engine_is_injected_at_most_once(declared: Seq<GenericParamModel>)
    ensures
        declares_engine(declared) ==> !resolved(declared).injected && resolved(
            declared,
        ).impl_generics == declared,
        !declares_engine(declared) ==> {
            let params = resolved(declared).impl_generics;
            &&& resolved(declared).injected
            &&& params.len() == declared.len() + 1
            &&& params[0] == engine_param()
            &&& forall|i: int| 1 <= i < params.len() ==> #[trigger] params[i] == declared[i - 1]
            &&& forall|i: int| 1 <= i < params.len() ==> !is_engine_bounded(#[trigger] params[i])
        },
        declares_engine(resolved(declared).impl_generics),
        !resolved(resolved(declared).impl_generics).injected,
        resolved(resolved(declared).impl_generics).impl_generics == resolved(
            declared,
        ).impl_generics,
        resolved(declared).type_arguments == param_names(resolved(declared).impl_generics),
{
    let params = resolved(declared).impl_generics;
    if declares_engine(declared) {
    } else {
        assert(is_engine_bounded(params[0]));
        assert forall|i: int| 1 <= i < params.len() implies !is_engine_bounded(
            #[trigger] params[i],
        ) by {
            assert(params[i] == declared[i - 1]);
        }
        assert(resolved(declared).type_arguments =~= param_names(params));
    }
}

/// No two parameters have the same identifier.
pub open spec fn identifiers_distinct(params: Seq<GenericParamModel>) -> bool {
    forall|i: int, j: int|
        0 <= i < j < params.len() ==> params[i].identifier != params[j].identifier
}

/// Some parameter has this identifier.
pub open spec fn declares_name(params: Seq<GenericParamModel>, name: Seq<char>) -> bool {
    exists|i: int| 0 <= i < params.len() && (#[trigger] params[i]).identifier == name
}

/// Resolution keeps the identifiers apart. Where the declared identifiers
/// are distinct, and `E` is not among them unless an engine parameter is
/// declared, the parameters of the header have distinct identifiers; and
/// where `CS` is not declared, it is not among them either, so that the
/// parameter of the function collides with none of the type.
pub proof fn law_resolution_keeps_identifiers_distinct(declared: Seq<GenericParamModel>)
    requires
        identifiers_distinct(declared),
        declares_engine(declared) || !declares_name(declared, "E"@),
    ensures
        identifiers_distinct(resolved(declared).impl_generics),
        !declares_name(declared, "CS"@) ==> !declares_name(
            resolved(declared).impl_generics,
            "CS"@,
        ),
        resolved(declared).function_generics.len() == 1,
        resolved(declared).function_generics[0].identifier == "CS"@,
{
    reveal_strlit("E");
    reveal_strlit("CS");
    let params = resolved(declared).impl_generics;
    if !declares_engine(declared) {
        assert forall|i: int, j: int| 0 <= i < j < params.len() implies params[i].identifier
            != params[j].identifier by {
            assert(params[j] == declared[j - 1]);
            if i > 0 {
                assert(params[i] == declared[i - 1]);
            }
        }
        if !declares_name(declared, "CS"@) {
            assert forall|i: int| 0 <= i < params.len() implies (#[trigger] params[i]).identifier
                != "CS"@ by {
                if i > 0 {
                    assert(params[i] == declared[i - 1]);
                } else {
                    assert("E"@.len() != "CS"@.len());
                }
            }
        }
    }
}

} // verus!
