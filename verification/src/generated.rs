//! The generated function as a structure: header, signature and body.

use vstd::prelude::*;
use crate::descriptor::{FieldType, FieldTypeModel};
use crate::generics::{ResolvedGenerics, ResolvedGenericsModel};

verus! {

/// The selection code of one field: it selects between the field `field` of
/// the two inputs, by the selection primitive of the element type in `ty`,
/// slot by slot for an array, and binds the result to `local`.
#[derive(Clone, Debug, PartialEq, Eq)]
pub struct Fragment {
    pub field: String,
    pub local: String,
    pub ty: FieldType,
}

/// The model of a `Fragment`: the same data over mathematical sequences and
/// numbers.
pub struct FragmentModel {
    pub field: Seq<char>,
    pub local: Seq<char>,
    pub ty: FieldTypeModel,
}

impl View for Fragment {
    type V = FragmentModel;

    open spec fn view(&self) -> FragmentModel {
        FragmentModel { field: self.field@, local: self.local@, ty: self.ty@ }
    }
}

/// The models of a list of fragments, in order.
pub open spec fn fragments_model(fragments: Seq<Fragment>) -> Seq<FragmentModel> {
    fragments.map_values(|f: Fragment| f@)
}

/// The local value that populates a field in the constructor call.
#[derive(Clone, Debug, PartialEq, Eq)]
pub struct FieldBinding {
    pub field: String,
    pub local: String,
}

/// The model of a `FieldBinding`: the same data over mathematical sequences and
/// numbers.
pub struct FieldBindingModel {
    pub field: Seq<char>,
    pub local: Seq<char>,
}

impl View for FieldBinding {
    type V = FieldBindingModel;

    open spec fn view(&self) -> FieldBindingModel {
        FieldBindingModel { field: self.field@, local: self.local@ }
    }
}

/// The models of a list of bindings, in order.
pub open spec fn bindings_model(bindings: Seq<FieldBinding>) -> Seq<FieldBindingModel> {
    bindings.map_values(|b: FieldBinding| b@)
}

/// The generated implementation of the conditional selection of one type.
/// Its body returns the first input where the two inputs are equal; else it
/// runs the array fragments, then the scalar fragments, and constructs the
/// result from the bindings.
#[derive(Clone, Debug, PartialEq, Eq)]
pub struct GeneratedFunction {
    pub subject: String,
    pub generics: ResolvedGenerics,
    pub array_fragments: Vec<Fragment>,
    pub scalar_fragments: Vec<Fragment>,
    pub bindings: Vec<FieldBinding>,
}

/// The model of a `GeneratedFunction`: the same data over mathematical sequences and
/// numbers.
pub struct GeneratedFunctionModel {
    pub subject: Seq<char>,
    pub generics: ResolvedGenericsModel,
    pub array_fragments: Seq<FragmentModel>,
    pub scalar_fragments: Seq<FragmentModel>,
    pub bindings: Seq<FieldBindingModel>,
}

impl View for GeneratedFunction {
    type V = GeneratedFunctionModel;

    open spec fn view(&self) -> GeneratedFunctionModel {
        GeneratedFunctionModel {
            subject: self.subject@,
            generics: self.generics@,
            array_fragments: fragments_model(self.array_fragments@),
            scalar_fragments: fragments_model(self.scalar_fragments@),
            bindings: bindings_model(self.bindings@),
        }
    }
}

} // verus!
