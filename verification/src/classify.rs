//! From a type definition to the descriptor of a record: the shape check and
//! the classification of each field.

use vstd::prelude::*;
use crate::descriptor::{
    DeclaredFieldModel, DeclaredType, DeclaredTypeModel, Diagnostic,
    DiagnosticModel, FieldDescriptor, FieldDescriptorModel, FieldType, FieldTypeModel, Shape,
    ShapeModel, TypeDefinition, TypeDefinitionModel, TypeDescriptor, TypeDescriptorModel,
    copy_params, declared_model, declared_model_of_fields, fields_model,
};

verus! {

/// The class of a declared type: a named type is a scalar, an array of a
/// named type is a fixed array, and nothing else has a class.
pub open spec fn class_of(ty: DeclaredTypeModel) -> Option<FieldTypeModel> {
    match ty {
        DeclaredTypeModel::Named(name) => Some(FieldTypeModel::Scalar(name)),
        DeclaredTypeModel::Array(elem, len) => match *elem {
            DeclaredTypeModel::Named(name) => Some(FieldTypeModel::FixedArray(name, len)),
            _ => None,
        },
        _ => None,
    }
}

/// Classifies one declared type.
pub fn classify(ty: &DeclaredType) -> (class: Option<FieldType>)
    ensures
        class.is_some() == class_of(ty@).is_some(),
        class.is_some() ==> class.unwrap()@ == class_of(ty@).unwrap(),
{
    proof {
        reveal_with_fuel(declared_model, 2);
    }
    match ty {
        DeclaredType::Named(name) => Some(FieldType::Scalar(name.clone())),
        DeclaredType::Array(elem, len) => match &**elem {
            DeclaredType::Named(name) => Some(FieldType::FixedArray(name.clone(), *len)),
            _ => None,
        },
        _ => None,
    }
}

/// Every one of the first `n` fields has a class.
pub open spec fn classified_before(fields: Seq<DeclaredFieldModel>, n: int) -> bool {
    forall|j: int| 0 <= j < n ==> (#[trigger] class_of(fields[j].ty)).is_some()
}

/// Field `i` has no class, and every field before it has one.
pub open spec fn is_first_unsupported(fields: Seq<DeclaredFieldModel>, i: int) -> bool {
    &&& 0 <= i < fields.len()
    &&& class_of(fields[i].ty).is_none()
    &&& classified_before(fields, i)
}

/// The index of the first field without a class, where there is one.
pub open spec fn first_unsupported(fields: Seq<DeclaredFieldModel>) -> int {
    choose|i: int| is_first_unsupported(fields, i)
}

/// The fields with their classes, in declaration order.
pub open spec fn classified_fields(fields: Seq<DeclaredFieldModel>) -> Seq<FieldDescriptorModel> {
    Seq::new(
        fields.len(),
        |i: int| FieldDescriptorModel { name: fields[i].name, ty: class_of(fields[i].ty).unwrap() },
    )
}

/// What a definition is described as: a definition that is no struct with
/// named fields has an unsupported shape; the first field without a class is
/// an unsupported field; otherwise the descriptor keeps the name, the generic
/// parameters as declared, and the classified fields in declaration order.
pub open spec fn described(def: TypeDefinitionModel) -> Result<
    TypeDescriptorModel,
    DiagnosticModel,
> {
    match def.shape {
        ShapeModel::Record(fields) => if classified_before(fields, fields.len() as int) {
            Ok(
                TypeDescriptorModel {
                    name: def.name,
                    generics: def.generics,
                    fields: classified_fields(fields),
                },
            )
        } else {
            Err(
                DiagnosticModel::UnsupportedFieldType {
                    field: fields[first_unsupported(fields)].name,
                },
            )
        },
        _ => Err(DiagnosticModel::UnsupportedShape { subject: def.name }),
    }
}

/// The first field without a class is the only index that
/// `is_first_unsupported` holds of.
pub proof fn lemma_first_unsupported_unique(fields: Seq<DeclaredFieldModel>, i: int)
    requires
        is_first_unsupported(fields, i),
    ensures
        first_unsupported(fields) == i,
        !classified_before(fields, fields.len() as int),
{
    let k = first_unsupported(fields);
    assert(is_first_unsupported(fields, k));
    if k < i {
        assert(class_of(fields[k].ty).is_some());
    }
    if i < k {
        assert(class_of(fields[i].ty).is_some());
    }
    assert(class_of(fields[i].ty).is_none());
}

/// The view of a result of `describe`.
pub open spec fn outcome_model(r: Result<TypeDescriptor, Diagnostic>) -> Result<
    TypeDescriptorModel,
    DiagnosticModel,
> {
    match r {
        Ok(d) => Ok(d@),
        Err(e) => Err(e@),
    }
}

/// Describes a type definition: checks its shape and classifies its fields
/// in declaration order, stopping at the first one that has no class.
pub fn describe(def: &TypeDefinition) -> (r: Result<TypeDescriptor, Diagnostic>)
    ensures
        outcome_model(r) == described(def@),
{
    match &def.shape {
        Shape::Record(declared) => {
            let ghost model = declared_model_of_fields(declared@);
            let mut fields: Vec<FieldDescriptor> = Vec::new();
            let mut i: usize = 0;
            while i < declared.len()
                invariant
                    i <= declared.len(),
                    fields.len() == i,
                    model == declared_model_of_fields(declared@),
                    def@.shape == ShapeModel::Record(model),
                    classified_before(model, i as int),
                    forall|j: int|
                        0 <= j < i ==> (#[trigger] fields[j])@ == classified_fields(model)[j],
                decreases declared.len() - i,
            {
                let field = &declared[i];
                assert(model[i as int] == field@);
                match classify(&field.ty) {
                    Some(ty) => {
                        fields.push(FieldDescriptor { name: field.name.clone(), ty });
                    },
                    None => {
                        proof {
                            lemma_first_unsupported_unique(model, i as int);
                        }
                        return Err(Diagnostic::UnsupportedFieldType { field: field.name.clone() });
                    },
                }
                i += 1;
            }
            let descriptor = TypeDescriptor {
                name: def.name.clone(),
                generics: copy_params(&def.generics),
                fields,
            };
            assert(fields_model(descriptor.fields@) =~= classified_fields(model));
            Ok(descriptor)
        },
        _ => Err(Diagnostic::UnsupportedShape { subject: def.name.clone() }),
    }
}

} // verus!
