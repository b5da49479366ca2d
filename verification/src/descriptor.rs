//! The data that flows through the generator, and the mathematical model
//! (the view) of each piece of it.

use vstd::prelude::*;

verus! {

/// A type as it is written in a field declaration.
#[derive(Debug, PartialEq, Eq)]
pub enum DeclaredType {
    /// A simple named type, such as `Bar`.
    Named(String),
    /// A named type with arguments, such as the container `Vec<Bar>`.
    Parameterized(String),
    /// A fixed-size array `[elem; len]`.
    Array(Box<DeclaredType>, usize),
    /// A tuple type.
    Tuple,
    /// A reference type.
    Reference,
    /// Every other form of type.
    Other,
}

/// The model of a `DeclaredType`: the same data over mathematical sequences and
/// numbers.
pub enum DeclaredTypeModel {
    Named(Seq<char>),
    Parameterized(Seq<char>),
    Array(Box<DeclaredTypeModel>, nat),
    Tuple,
    Reference,
    Other,
}

/// The model of a declared type, level by level.
pub open spec fn declared_model(ty: DeclaredType) -> DeclaredTypeModel
    decreases ty,
{
    match ty {
        DeclaredType::Named(name) => DeclaredTypeModel::Named(name@),
        DeclaredType::Parameterized(name) => DeclaredTypeModel::Parameterized(name@),
        DeclaredType::Array(elem, len) => DeclaredTypeModel::Array(
            Box::new(declared_model(*elem)),
            len as nat,
        ),
        DeclaredType::Tuple => DeclaredTypeModel::Tuple,
        DeclaredType::Reference => DeclaredTypeModel::Reference,
        DeclaredType::Other => DeclaredTypeModel::Other,
    }
}

impl View for DeclaredType {
    type V = DeclaredTypeModel;

    open spec fn view(&self) -> DeclaredTypeModel {
        declared_model(*self)
    }
}

/// One named field of a type definition, before classification.
#[derive(Debug, PartialEq, Eq)]
pub struct DeclaredField {
    pub name: String,
    pub ty: DeclaredType,
}

/// The model of a `DeclaredField`: the same data over mathematical sequences and
/// numbers.
pub struct DeclaredFieldModel {
    pub name: Seq<char>,
    pub ty: DeclaredTypeModel,
}

impl View for DeclaredField {
    type V = DeclaredFieldModel;

    open spec fn view(&self) -> DeclaredFieldModel {
        DeclaredFieldModel { name: self.name@, ty: self.ty@ }
    }
}

/// The models of a list of declared fields, in order.
pub open spec fn declared_model_of_fields(fields: Seq<DeclaredField>) -> Seq<DeclaredFieldModel> {
    fields.map_values(|f: DeclaredField| f@)
}

/// The top-level shape of a type definition.
#[derive(Debug, PartialEq, Eq)]
pub enum Shape {
    /// A struct with named fields, in declaration order.
    Record(Vec<DeclaredField>),
    /// A struct with positional fields.
    Positional,
    /// A struct without fields.
    Unit,
    /// An enum, a union, or anything else that is not a struct.
    NotAStruct,
}

/// The model of a `Shape`: the same data over mathematical sequences and
/// numbers.
pub enum ShapeModel {
    Record(Seq<DeclaredFieldModel>),
    Positional,
    Unit,
    NotAStruct,
}

impl View for Shape {
    type V = ShapeModel;

    open spec fn view(&self) -> ShapeModel {
        match self {
            Shape::Record(fields) => ShapeModel::Record(declared_model_of_fields(fields@)),
            Shape::Positional => ShapeModel::Positional,
            Shape::Unit => ShapeModel::Unit,
            Shape::NotAStruct => ShapeModel::NotAStruct,
        }
    }
}

/// A generic parameter of a type: its identifier and, where it has one, the
/// capability that bounds it. A const parameter has its type as its bound.
#[derive(Clone, Debug, PartialEq, Eq)]
pub struct GenericParam {
    pub identifier: String,
    pub bound: Option<String>,
    pub constant: bool,
}

/// The model of a `GenericParam`: the same data over mathematical sequences and
/// numbers.
pub struct GenericParamModel {
    pub identifier: Seq<char>,
    pub bound: Option<Seq<char>>,
    pub constant: bool,
}

impl View for GenericParam {
    type V = GenericParamModel;

    open spec fn view(&self) -> GenericParamModel {
        GenericParamModel {
            identifier: self.identifier@,
            bound: match self.bound {
                Some(b) => Some(b@),
                None => None,
            },
            constant: self.constant,
        }
    }
}

/// The models of a list of generic parameters, in order.
pub open spec fn params_model(params: Seq<GenericParam>) -> Seq<GenericParamModel> {
    params.map_values(|p: GenericParam| p@)
}

/// A copy of a generic parameter.
pub fn copy_param(param: &GenericParam) -> (copy: GenericParam)
    ensures
        copy@ == param@,
{
    let bound = match &param.bound {
        Some(b) => Some(b.clone()),
        None => None,
    };
    GenericParam { identifier: param.identifier.clone(), bound, constant: param.constant }
}

/// A copy of a list of generic parameters, in the same order.
pub fn copy_params(params: &Vec<GenericParam>) -> (copy: Vec<GenericParam>)
    ensures
        params_model(copy@) == params_model(params@),
{
    let mut copy: Vec<GenericParam> = Vec::new();
    let mut i: usize = 0;
    while i < params.len()
        invariant
            i <= params.len(),
            copy.len() == i,
            forall|j: int| 0 <= j < i ==> copy[j]@ == params[j]@,
        decreases params.len() - i,
    {
        copy.push(copy_param(&params[i]));
        i += 1;
    }
    assert(params_model(copy@) =~= params_model(params@));
    copy
}

/// A type definition as the front end hands it over.
#[derive(Debug, PartialEq, Eq)]
pub struct TypeDefinition {
    pub name: String,
    pub generics: Vec<GenericParam>,
    pub shape: Shape,
}

/// The model of a `TypeDefinition`: the same data over mathematical sequences and
/// numbers.
pub struct TypeDefinitionModel {
    pub name: Seq<char>,
    pub generics: Seq<GenericParamModel>,
    pub shape: ShapeModel,
}

impl View for TypeDefinition {
    type V = TypeDefinitionModel;

    open spec fn view(&self) -> TypeDefinitionModel {
        TypeDefinitionModel {
            name: self.name@,
            generics: params_model(self.generics@),
            shape: self.shape@,
        }
    }
}

/// How the selection code of a field is emitted.
#[derive(Clone, Debug, PartialEq, Eq)]
pub enum FieldType {
    /// One value of the named type.
    Scalar(String),
    /// `length` values of the named element type.
    FixedArray(String, usize),
}

/// The model of a `FieldType`: the same data over mathematical sequences and
/// numbers.
pub enum FieldTypeModel {
    Scalar(Seq<char>),
    FixedArray(Seq<char>, nat),
}

impl View for FieldType {
    type V = FieldTypeModel;

    open spec fn view(&self) -> FieldTypeModel {
        match self {
            FieldType::Scalar(element) => FieldTypeModel::Scalar(element@),
            FieldType::FixedArray(element, length) => FieldTypeModel::FixedArray(
                element@,
                *length as nat,
            ),
        }
    }
}

/// A classified field.
#[derive(Clone, Debug, PartialEq, Eq)]
pub struct FieldDescriptor {
    pub name: String,
    pub ty: FieldType,
}

/// The model of a `FieldDescriptor`: the same data over mathematical sequences and
/// numbers.
pub struct FieldDescriptorModel {
    pub name: Seq<char>,
    pub ty: FieldTypeModel,
}

impl View for FieldDescriptor {
    type V = FieldDescriptorModel;

    open spec fn view(&self) -> FieldDescriptorModel {
        FieldDescriptorModel { name: self.name@, ty: self.ty@ }
    }
}

/// The models of a list of classified fields, in order.
pub open spec fn fields_model(fields: Seq<FieldDescriptor>) -> Seq<FieldDescriptorModel> {
    fields.map_values(|f: FieldDescriptor| f@)
}

/// The structural description of a record type: what the generator works on.
#[derive(Clone, Debug, PartialEq, Eq)]
pub struct TypeDescriptor {
    pub name: String,
    pub generics: Vec<GenericParam>,
    pub fields: Vec<FieldDescriptor>,
}

/// The model of a `TypeDescriptor`: the same data over mathematical sequences and
/// numbers.
pub struct TypeDescriptorModel {
    pub name: Seq<char>,
    pub generics: Seq<GenericParamModel>,
    pub fields: Seq<FieldDescriptorModel>,
}

impl View for TypeDescriptor {
    type V = TypeDescriptorModel;

    open spec fn view(&self) -> TypeDescriptorModel {
        TypeDescriptorModel {
            name: self.name@,
            generics: params_model(self.generics@),
            fields: fields_model(self.fields@),
        }
    }
}

/// Why no function was generated.
#[derive(Clone, Debug, PartialEq, Eq)]
pub enum Diagnostic {
    /// The definition is not a struct with named fields.
    UnsupportedShape { subject: String },
    /// The field's type is neither a simple named type nor a fixed-size
    /// array of one.
    UnsupportedFieldType { field: String },
}

/// The model of a `Diagnostic`: the same data over mathematical sequences and
/// numbers.
pub enum DiagnosticModel {
    UnsupportedShape { subject: Seq<char> },
    UnsupportedFieldType { field: Seq<char> },
}

impl View for Diagnostic {
    type V = DiagnosticModel;

    open spec fn view(&self) -> DiagnosticModel {
        match self {
            Diagnostic::UnsupportedShape { subject } => DiagnosticModel::UnsupportedShape {
                subject: subject@,
            },
            Diagnostic::UnsupportedFieldType { field } => DiagnosticModel::UnsupportedFieldType {
                field: field@,
            },
        }
    }
}

} // verus!
