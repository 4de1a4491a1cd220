//! From the types of an interface to the layouts of their values.
//!
//! A type names its enumeration or record; a layout has the definition
//! written out. Only what the base protocol defines can be resolved: the
//! scalars, enumerations, records whose fields are doubles or records, and
//! optionals of a double or of such a record. A record that contains itself
//! has no values and is not resolved: records nest at most as deep as there
//! are record definitions.

use crate::codec::{lemma_record_layout_model, PackedLayout, PackedLayoutModel, RecordLayout};
use crate::error::{GenerationError, GenerationFailure, Outcome};
use crate::interface::{
    find_enum, find_record, views, ComponentInterface, Field, FieldModel, InterfaceModel,
    TypeKind, TypeReference,
};
use crate::marshal::{lemma_lift_inverts_lower, Layout, LayoutModel, ValueModel};
use crate::type_mapper::{lift_py_text, lower_py_text, native_declaration};
use vstd::prelude::*;

verus! {

/// The failure to resolve the kind `t`.
pub open spec fn unresolved<T>(t: TypeKind) -> Outcome<T> {
    Err(GenerationFailure::UnsupportedType(t))
}

/// The layouts of the fields of the record called `name`, where records may
/// still nest `depth` deep.
pub open spec fn record_layout_of(ci: InterfaceModel, name: Seq<char>, depth: nat) -> Outcome<
    Seq<PackedLayoutModel>,
>
    decreases depth, 0nat,
{
    if depth == 0 {
        unresolved(TypeKind::Record(name))
    } else {
        match find_record(ci.records, name) {
            Some(record) => fields_layout_of(ci, record.fields, (depth - 1) as nat),
            None => unresolved(TypeKind::Record(name)),
        }
    }
}

/// The layout of a value of kind `t` inside a buffer, where records may
/// still nest `depth` deep.
pub open spec fn packed_layout_of(ci: InterfaceModel, t: TypeKind, depth: nat) -> Outcome<
    PackedLayoutModel,
>
    decreases depth, 1nat,
{
    match t {
        TypeKind::Double => Ok(PackedLayoutModel::Double),
        TypeKind::Record(name) => match record_layout_of(ci, name, depth) {
            Ok(shapes) => Ok(PackedLayoutModel::Record(shapes)),
            Err(e) => Err(e),
        },
        _ => unresolved(t),
    }
}

/// The layouts of `fields`, in order; the first failure if there is one.
pub open spec fn fields_layout_of(
    ci: InterfaceModel,
    fields: Seq<FieldModel>,
    depth: nat,
) -> Outcome<Seq<PackedLayoutModel>>
    decreases depth, fields.len() + 2,
{
    if fields.len() == 0 {
        Ok(Seq::empty())
    } else {
        match fields_layout_of(ci, fields.drop_last(), depth) {
            Ok(front) => match packed_layout_of(ci, fields.last().kind, depth) {
                Ok(last) => Ok(front.push(last)),
                Err(e) => Err(e),
            },
            Err(e) => Err(e),
        }
    }
}

/// The layout of a value of kind `t`.
pub open spec fn layout_of(ci: InterfaceModel, t: TypeKind) -> Outcome<LayoutModel> {
    match t {
        TypeKind::U32 => Ok(LayoutModel::U32),
        TypeKind::U64 => Ok(LayoutModel::U64),
        TypeKind::Float => Ok(LayoutModel::Float),
        TypeKind::Double => Ok(LayoutModel::Double),
        TypeKind::Boolean => Ok(LayoutModel::Boolean),
        TypeKind::Enum(name) => match find_enum(ci.enums, name) {
            Some(e) => if e.values.len() <= u32::MAX {
                Ok(LayoutModel::Enum(e.values.len() as u32))
            } else {
                unresolved(t)
            },
            None => unresolved(t),
        },
        TypeKind::Record(name) => match record_layout_of(ci, name, ci.records.len()) {
            Ok(shapes) => Ok(LayoutModel::Record(shapes)),
            Err(e) => Err(e),
        },
        TypeKind::Optional(inner) => match packed_layout_of(ci, *inner, ci.records.len()) {
            Ok(shape) => Ok(LayoutModel::Optional(shape)),
            Err(e) => Err(e),
        },
        _ => unresolved(t),
    }
}

/// One more field, resolved behind those already resolved.
proof fn lemma_fields_layout_next(
    ci: InterfaceModel,
    fields: Seq<FieldModel>,
    depth: nat,
    count: int,
)
    requires
        0 <= count < fields.len(),
    ensures
        fields_layout_of(ci, fields.take(count + 1), depth) == match fields_layout_of(
            ci,
            fields.take(count),
            depth,
        ) {
            Ok(front) => match packed_layout_of(ci, fields[count].kind, depth) {
                Ok(last) => Ok(front.push(last)),
                Err(e) => Err(e),
            },
            Err(e) => Err::<Seq<PackedLayoutModel>, GenerationFailure>(e),
        },
{
    assert(fields.take(count + 1).drop_last() =~= fields.take(count));
    assert(fields.take(count + 1).last() == fields[count]);
}

/// A failure among the first fields is the failure of all of them.
proof fn lemma_fields_layout_fails(
    ci: InterfaceModel,
    fields: Seq<FieldModel>,
    depth: nat,
    count: int,
)
    requires
        0 <= count <= fields.len(),
        fields_layout_of(ci, fields.take(count), depth) is Err,
    ensures
        fields_layout_of(ci, fields, depth) == fields_layout_of(ci, fields.take(count), depth),
    decreases fields.len(),
{
    if count == fields.len() {
        assert(fields.take(count) =~= fields);
    } else {
        assert(fields.drop_last().take(count) =~= fields.take(count));
        lemma_fields_layout_fails(ci, fields.drop_last(), depth, count);
    }
}

/// The failure to resolve `type_`.
fn unsupported<T>(type_: &TypeReference) -> (r: Result<T, GenerationError>)
    ensures
        r matches Err(e) && e@ == GenerationFailure::UnsupportedType(type_@),
{
    Err(GenerationError::UnsupportedType(type_.duplicate()))
}

impl ComponentInterface {
    /// Resolves the layouts of `fields`, in order, where records may still
    /// nest `depth` deep.
    fn fields_layout(&self, fields: &Vec<Field>, depth: usize) -> (r: Result<
        RecordLayout,
        GenerationError,
    >)
        ensures
            match r {
                Ok(layout) => fields_layout_of(self@, views(fields@), depth as nat) == Ok::<
                    Seq<PackedLayoutModel>,
                    GenerationFailure,
                >(layout@),
                Err(e) => fields_layout_of(self@, views(fields@), depth as nat) == Err::<
                    Seq<PackedLayoutModel>,
                    GenerationFailure,
                >(e@),
            },
        decreases depth, fields.len() + 2,
    {
        let mut layout = RecordLayout { fields: Vec::new() };
        let mut i: usize = 0;
        proof {
            assert(layout@ =~= Seq::<PackedLayoutModel>::empty());
        }
        while i < fields.len()
            invariant
                i <= fields.len(),
                fields_layout_of(self@, views(fields@).take(i as int), depth as nat) == Ok::<
                    Seq<PackedLayoutModel>,
                    GenerationFailure,
                >(layout@),
            decreases fields.len() - i,
        {
            proof {
                lemma_fields_layout_next(self@, views(fields@), depth as nat, i as int);
            }
            let ghost resolved = layout@;
            match self.packed_layout(&fields[i].type_, depth) {
                Ok(shape) => {
                    layout.fields.push(shape);
                    proof {
                        assert(layout@ =~= resolved.push(shape@));
                    }
                },
                Err(e) => {
                    proof {
                        lemma_fields_layout_fails(self@, views(fields@), depth as nat, i + 1);
                    }
                    return Err(e);
                },
            }
            i += 1;
        }
        proof {
            assert(views(fields@).take(i as int) =~= views(fields@));
        }
        Ok(layout)
    }

    /// Resolves the layout of the record called `name`, where records may
    /// still nest `depth` deep.
    fn record_layout(&self, type_: &TypeReference, name: &String, depth: usize) -> (r: Result<
        RecordLayout,
        GenerationError,
    >)
        requires
            type_@ == TypeKind::Record(name@),
        ensures
            match r {
                Ok(layout) => record_layout_of(self@, name@, depth as nat) == Ok::<
                    Seq<PackedLayoutModel>,
                    GenerationFailure,
                >(layout@),
                Err(e) => record_layout_of(self@, name@, depth as nat) == Err::<
                    Seq<PackedLayoutModel>,
                    GenerationFailure,
                >(e@),
            },
        decreases depth, 0nat,
    {
        if depth == 0 {
            return unsupported(type_);
        }
        match self.get_record_definition(name.as_str()) {
            Some(record) => self.fields_layout(&record.fields, depth - 1),
            None => unsupported(type_),
        }
    }

    /// Resolves the layout of a value of type `type_` inside a buffer, where
    /// records may still nest `depth` deep.
    fn packed_layout(&self, type_: &TypeReference, depth: usize) -> (r: Result<
        PackedLayout,
        GenerationError,
    >)
        ensures
            match r {
                Ok(layout) => packed_layout_of(self@, type_@, depth as nat) == Ok::<
                    PackedLayoutModel,
                    GenerationFailure,
                >(layout@),
                Err(e) => packed_layout_of(self@, type_@, depth as nat) == Err::<
                    PackedLayoutModel,
                    GenerationFailure,
                >(e@),
            },
        decreases depth, 1nat,
    {
        match type_ {
            TypeReference::Double => Ok(PackedLayout::Double),
            TypeReference::Record(name) => match self.record_layout(type_, name, depth) {
                Ok(layout) => {
                    proof {
                        lemma_record_layout_model(layout);
                    }
                    Ok(PackedLayout::Record(layout))
                },
                Err(e) => Err(e),
            },
            _ => unsupported(type_),
        }
    }

    /// Resolves the layout of a value of type `type_`.
    ///
    /// Fails with the offending type when `type_`, or a field that it
    /// reaches, is of a kind that cannot be lowered and lifted, or names a
    /// definition that the interface does not have.
    pub fn layout(&self, type_: &TypeReference) -> (r: Result<Layout, GenerationError>)
        ensures
            match r {
                Ok(layout) => layout_of(self@, type_@) == Ok::<LayoutModel, GenerationFailure>(
                    layout@,
                ),
                Err(e) => layout_of(self@, type_@) == Err::<LayoutModel, GenerationFailure>(e@),
            },
    {
        match type_ {
            TypeReference::U32 => Ok(Layout::U32),
            TypeReference::U64 => Ok(Layout::U64),
            TypeReference::Float => Ok(Layout::Float),
            TypeReference::Double => Ok(Layout::Double),
            TypeReference::Boolean => Ok(Layout::Boolean),
            TypeReference::Enum(name) => match self.get_enum_definition(name.as_str()) {
                Some(e) => {
                    if e.values.len() <= u32::MAX as usize {
                        Ok(Layout::Enum(e.values.len() as u32))
                    } else {
                        unsupported(type_)
                    }
                },
                None => unsupported(type_),
            },
            TypeReference::Record(name) => match self.record_layout(
                type_,
                name,
                self.records.len(),
            ) {
                Ok(layout) => Ok(Layout::Record(layout)),
                Err(e) => Err(e),
            },
            TypeReference::Optional(inner) => match self.packed_layout(inner, self.records.len()) {
                Ok(layout) => Ok(Layout::Optional(layout)),
                Err(e) => Err(e),
            },
            _ => unsupported(type_),
        }
    }
}

/// What can be resolved is covered by the type mapper: it has the native
/// declaration type on which lowering and lifting rest, and the rules for
/// lowering and lifting both have an answer for it.
pub proof fn lemma_resolved_kinds_are_mapped(ci: InterfaceModel, t: TypeKind, nm: Seq<char>)
    requires
        layout_of(ci, t) is Ok,
    ensures
        native_declaration(t) == Some(layout_of(ci, t)->Ok_0.declaration()),
        lower_py_text(nm, t) is Ok,
        lift_py_text(nm, t) is Ok,
{
}

/// Lifting inverts lowering for every type that can be resolved and every
/// value of it.
pub proof fn lemma_round_trip(ci: InterfaceModel, t: TypeKind, value: ValueModel)
    requires
        layout_of(ci, t) is Ok,
        value.conforms(layout_of(ci, t)->Ok_0),
    ensures
        layout_of(ci, t)->Ok_0.lifted(value.lowered()) == Some(value),
{
    lemma_lift_inverts_lower(value, layout_of(ci, t)->Ok_0);
}

} // verus!
