//! The source constructs that the emitter produces: a small syntax tree of
//! the generated module, whose leaves are the statements and expressions that
//! the type mapper prescribes.

use crate::interface::views;
use vstd::prelude::*;

verus! {

/// The declaration of one native entry point: the types of its arguments and
/// of its result, as the native library was compiled with them.
#[derive(Debug, PartialEq, Eq)]
pub struct NativeDeclaration {
    pub name: String,
    pub argtypes: Vec<String>,
    pub restype: Option<String>,
}

/// One variant of an emitted enumeration, with its ordinal.
#[derive(Debug, PartialEq, Eq)]
pub struct EnumVariant {
    pub name: String,
    pub ordinal: usize,
}

/// An enumeration type: its variants in declaration order, numbered from one.
#[derive(Debug, PartialEq, Eq)]
pub struct EnumType {
    pub name: String,
    pub variants: Vec<EnumVariant>,
}

/// A record type. Besides the names of the fields it carries, field by field
/// and in declared order, the expression that reads the field from a buffer,
/// the expression for the field's size in a buffer, and the statement that
/// writes the field into a buffer.
#[derive(Debug, PartialEq, Eq)]
pub struct RecordType {
    pub name: String,
    pub fields: Vec<String>,
    pub lift_from: Vec<String>,
    pub lowers_into_size: Vec<String>,
    pub lower_into: Vec<String>,
}

/// A callable of the generated module: a free function, a constructor or a
/// method. It coerces each argument, calls its native entry point with the
/// lowered arguments, and lifts the result if there is one.
#[derive(Debug, PartialEq, Eq)]
pub struct FunctionBinding {
    pub name: String,
    pub parameters: Vec<String>,
    pub coercions: Vec<String>,
    pub entry_point: String,
    pub lowered_arguments: Vec<String>,
    pub lifted_result: Option<String>,
}

/// An object type: one constructor, which keeps the handle that the native
/// entry point returns, and the methods, which pass that handle first.
#[derive(Debug, PartialEq, Eq)]
pub struct ObjectType {
    pub name: String,
    pub constructor: FunctionBinding,
    pub methods: Vec<FunctionBinding>,
}

/// One construct of the generated module.
#[derive(Debug, PartialEq, Eq)]
pub enum Construct {
    NativeDeclaration(NativeDeclaration),
    EnumType(EnumType),
    RecordType(RecordType),
    Function(FunctionBinding),
    ObjectType(ObjectType),
    ExportList(Vec<String>),
}

/// The model of a text that may be missing.
pub open spec fn optional_text(text: Option<String>) -> Option<Seq<char>> {
    match text {
        Some(t) => Some(t@),
        None => None,
    }
}

/// The mathematical model of a [`NativeDeclaration`].
pub struct NativeDeclarationModel {
    pub name: Seq<char>,
    pub argtypes: Seq<Seq<char>>,
    pub restype: Option<Seq<char>>,
}

impl View for NativeDeclaration {
    type V = NativeDeclarationModel;

    open spec fn view(&self) -> NativeDeclarationModel {
        NativeDeclarationModel {
            name: self.name@,
            argtypes: views(self.argtypes@),
            restype: optional_text(self.restype),
        }
    }
}

/// The mathematical model of an [`EnumVariant`].
pub struct EnumVariantModel {
    pub name: Seq<char>,
    pub ordinal: nat,
}

impl View for EnumVariant {
    type V = EnumVariantModel;

    open spec fn view(&self) -> EnumVariantModel {
        EnumVariantModel { name: self.name@, ordinal: self.ordinal as nat }
    }
}

/// The mathematical model of an [`EnumType`].
pub struct EnumTypeModel {
    pub name: Seq<char>,
    pub variants: Seq<EnumVariantModel>,
}

impl View for EnumType {
    type V = EnumTypeModel;

    open spec fn view(&self) -> EnumTypeModel {
        EnumTypeModel { name: self.name@, variants: views(self.variants@) }
    }
}

/// The mathematical model of a [`RecordType`].
pub struct RecordTypeModel {
    pub name: Seq<char>,
    pub fields: Seq<Seq<char>>,
    pub lift_from: Seq<Seq<char>>,
    pub lowers_into_size: Seq<Seq<char>>,
    pub lower_into: Seq<Seq<char>>,
}

impl View for RecordType {
    type V = RecordTypeModel;

    open spec fn view(&self) -> RecordTypeModel {
        RecordTypeModel {
            name: self.name@,
            fields: views(self.fields@),
            lift_from: views(self.lift_from@),
            lowers_into_size: views(self.lowers_into_size@),
            lower_into: views(self.lower_into@),
        }
    }
}

/// The mathematical model of a [`FunctionBinding`].
pub struct FunctionBindingModel {
    pub name: Seq<char>,
    pub parameters: Seq<Seq<char>>,
    pub coercions: Seq<Seq<char>>,
    pub entry_point: Seq<char>,
    pub lowered_arguments: Seq<Seq<char>>,
    pub lifted_result: Option<Seq<char>>,
}

impl View for FunctionBinding {
    type V = FunctionBindingModel;

    open spec fn view(&self) -> FunctionBindingModel {
        FunctionBindingModel {
            name: self.name@,
            parameters: views(self.parameters@),
            coercions: views(self.coercions@),
            entry_point: self.entry_point@,
            lowered_arguments: views(self.lowered_arguments@),
            lifted_result: optional_text(self.lifted_result),
        }
    }
}

/// The mathematical model of an [`ObjectType`].
pub struct ObjectTypeModel {
    pub name: Seq<char>,
    pub constructor: FunctionBindingModel,
    pub methods: Seq<FunctionBindingModel>,
}

impl View for ObjectType {
    type V = ObjectTypeModel;

    open spec fn view(&self) -> ObjectTypeModel {
        ObjectTypeModel {
            name: self.name@,
            constructor: self.constructor@,
            methods: views(self.methods@),
        }
    }
}

/// The mathematical model of a [`Construct`].
pub enum ConstructModel {
    NativeDeclaration(NativeDeclarationModel),
    EnumType(EnumTypeModel),
    RecordType(RecordTypeModel),
    Function(FunctionBindingModel),
    ObjectType(ObjectTypeModel),
    ExportList(Seq<Seq<char>>),
}

impl View for Construct {
    type V = ConstructModel;

    open spec fn view(&self) -> ConstructModel {
        match self {
            Construct::NativeDeclaration(d) => ConstructModel::NativeDeclaration(d@),
            Construct::EnumType(e) => ConstructModel::EnumType(e@),
            Construct::RecordType(r) => ConstructModel::RecordType(r@),
            Construct::Function(f) => ConstructModel::Function(f@),
            Construct::ObjectType(o) => ConstructModel::ObjectType(o@),
            Construct::ExportList(names) => ConstructModel::ExportList(views(names@)),
        }
    }
}

} // verus!
