//! The interface model: the kinds of type that can appear in a component's
//! public surface, and the definitions built from them.

use vstd::prelude::*;
use vstd::string::*;

verus! {

/// One kind of type that can appear in a component interface.
///
/// The set is closed: every rule of the type mapper either handles a kind or
/// rejects it by name. `Sequence` and `Mapping` are part of the model but no
/// marshaling rule exists for them yet.
#[derive(Debug, PartialEq, Eq)]
pub enum TypeReference {
    U32,
    U64,
    Float,
    Double,
    Boolean,
    Bytes,
    Enum(String),
    Record(String),
    Optional(Box<TypeReference>),
    Object(String),
    Sequence(Box<TypeReference>),
    Mapping(Box<TypeReference>),
}

/// The mathematical model of a [`TypeReference`]: names are character sequences.
pub enum TypeKind {
    U32,
    U64,
    Float,
    Double,
    Boolean,
    Bytes,
    Enum(Seq<char>),
    Record(Seq<char>),
    Optional(Box<TypeKind>),
    Object(Seq<char>),
    Sequence(Box<TypeKind>),
    Mapping(Box<TypeKind>),
}

impl TypeKind {
    /// The machine scalars, which cross the boundary unchanged.
    pub open spec fn is_scalar(self) -> bool {
        self is U32 || self is U64 || self is Float || self is Double || self is Boolean
    }
}

impl TypeReference {
    /// The model of this type reference.
    pub open spec fn kind(&self) -> TypeKind
        decreases self,
    {
        match self {
            TypeReference::U32 => TypeKind::U32,
            TypeReference::U64 => TypeKind::U64,
            TypeReference::Float => TypeKind::Float,
            TypeReference::Double => TypeKind::Double,
            TypeReference::Boolean => TypeKind::Boolean,
            TypeReference::Bytes => TypeKind::Bytes,
            TypeReference::Enum(name) => TypeKind::Enum(name@),
            TypeReference::Record(name) => TypeKind::Record(name@),
            TypeReference::Optional(inner) => TypeKind::Optional(Box::new(inner.kind())),
            TypeReference::Object(name) => TypeKind::Object(name@),
            TypeReference::Sequence(inner) => TypeKind::Sequence(Box::new(inner.kind())),
            TypeReference::Mapping(inner) => TypeKind::Mapping(Box::new(inner.kind())),
        }
    }
}

impl View for TypeReference {
    type V = TypeKind;

    open spec fn view(&self) -> TypeKind {
        self.kind()
    }
}

impl TypeReference {
    /// A deep copy.
    pub fn duplicate(&self) -> (r: TypeReference)
        ensures
            r@ == self@,
        decreases self,
    {
        match self {
            TypeReference::U32 => TypeReference::U32,
            TypeReference::U64 => TypeReference::U64,
            TypeReference::Float => TypeReference::Float,
            TypeReference::Double => TypeReference::Double,
            TypeReference::Boolean => TypeReference::Boolean,
            TypeReference::Bytes => TypeReference::Bytes,
            TypeReference::Enum(name) => TypeReference::Enum(name.clone()),
            TypeReference::Record(name) => TypeReference::Record(name.clone()),
            TypeReference::Optional(inner) => TypeReference::Optional(Box::new(inner.duplicate())),
            TypeReference::Object(name) => TypeReference::Object(name.clone()),
            TypeReference::Sequence(inner) => TypeReference::Sequence(Box::new(inner.duplicate())),
            TypeReference::Mapping(inner) => TypeReference::Mapping(Box::new(inner.duplicate())),
        }
    }
}

/// The models of `items`, in the same order.
pub open spec fn views<T: View>(items: Seq<T>) -> Seq<T::V> {
    Seq::new(items.len(), |i: int| items[i]@)
}

/// One more item adds its model to the models.
pub proof fn lemma_views_push<T: View>(items: Seq<T>, item: T)
    ensures
        views(items.push(item)) == views(items).push(item@),
{
    assert(views(items.push(item)) =~= views(items).push(item@));
}

/// A named slot of a given type: a field of a record, or an argument of a
/// function, a constructor, a method or a native entry point.
#[derive(Debug, PartialEq, Eq)]
pub struct Field {
    pub name: String,
    pub type_: TypeReference,
}

/// An argument is a named slot like a field.
pub type Argument = Field;

/// The mathematical model of a [`Field`].
pub struct FieldModel {
    pub name: Seq<char>,
    pub kind: TypeKind,
}

impl View for Field {
    type V = FieldModel;

    open spec fn view(&self) -> FieldModel {
        FieldModel { name: self.name@, kind: self.type_@ }
    }
}

/// An enumeration: a name and its variants in declaration order.
#[derive(Debug, PartialEq, Eq)]
pub struct EnumDefinition {
    pub name: String,
    pub values: Vec<String>,
}

/// The mathematical model of an [`EnumDefinition`].
pub struct EnumModel {
    pub name: Seq<char>,
    pub values: Seq<Seq<char>>,
}

impl View for EnumDefinition {
    type V = EnumModel;

    open spec fn view(&self) -> EnumModel {
        EnumModel { name: self.name@, values: views(self.values@) }
    }
}

/// A record: a name and its fields in declared order. The order fixes both
/// the order of the constructor's parameters and the layout in a buffer.
#[derive(Debug, PartialEq, Eq)]
pub struct RecordDefinition {
    pub name: String,
    pub fields: Vec<Field>,
}

/// The mathematical model of a [`RecordDefinition`].
pub struct RecordModel {
    pub name: Seq<char>,
    pub fields: Seq<FieldModel>,
}

impl View for RecordDefinition {
    type V = RecordModel;

    open spec fn view(&self) -> RecordModel {
        RecordModel { name: self.name@, fields: views(self.fields@) }
    }
}

/// A native entry point: the one symbol of the compiled library that
/// implements a function, a constructor or a method.
#[derive(Debug, PartialEq, Eq)]
pub struct FfiFunction {
    pub name: String,
    pub arguments: Vec<Argument>,
    pub return_type: Option<TypeReference>,
}

/// The mathematical model of an [`FfiFunction`].
pub struct FfiFunctionModel {
    pub name: Seq<char>,
    pub arguments: Seq<FieldModel>,
    pub return_type: Option<TypeKind>,
}

/// The model of a type that may be missing.
pub open spec fn optional_kind(type_: Option<TypeReference>) -> Option<TypeKind> {
    match type_ {
        Some(t) => Some(t@),
        None => None,
    }
}

impl View for FfiFunction {
    type V = FfiFunctionModel;

    open spec fn view(&self) -> FfiFunctionModel {
        FfiFunctionModel {
            name: self.name@,
            arguments: views(self.arguments@),
            return_type: optional_kind(self.return_type),
        }
    }
}

/// A free function, a constructor or a method: a name, arguments in order, a
/// return type if it returns anything, and the native entry point behind it.
#[derive(Debug, PartialEq, Eq)]
pub struct FunctionDefinition {
    pub name: String,
    pub arguments: Vec<Argument>,
    pub return_type: Option<TypeReference>,
    pub ffi_func: FfiFunction,
}

/// A constructor has the shape of a function.
pub type ConstructorDefinition = FunctionDefinition;

/// A method has the shape of a function.
pub type MethodDefinition = FunctionDefinition;

/// The mathematical model of a [`FunctionDefinition`].
pub struct FunctionModel {
    pub name: Seq<char>,
    pub arguments: Seq<FieldModel>,
    pub return_type: Option<TypeKind>,
    pub ffi_func: FfiFunctionModel,
}

impl View for FunctionDefinition {
    type V = FunctionModel;

    open spec fn view(&self) -> FunctionModel {
        FunctionModel {
            name: self.name@,
            arguments: views(self.arguments@),
            return_type: optional_kind(self.return_type),
            ffi_func: self.ffi_func@,
        }
    }
}

/// An object: a name, its constructors and its methods in order. Across the
/// boundary an instance is an opaque integer handle.
#[derive(Debug, PartialEq, Eq)]
pub struct ObjectDefinition {
    pub name: String,
    pub constructors: Vec<ConstructorDefinition>,
    pub methods: Vec<MethodDefinition>,
}

/// The mathematical model of an [`ObjectDefinition`].
pub struct ObjectModel {
    pub name: Seq<char>,
    pub constructors: Seq<FunctionModel>,
    pub methods: Seq<FunctionModel>,
}

impl View for ObjectDefinition {
    type V = ObjectModel;

    open spec fn view(&self) -> ObjectModel {
        ObjectModel {
            name: self.name@,
            constructors: views(self.constructors@),
            methods: views(self.methods@),
        }
    }
}

/// The description of a component's public surface. It is input to the
/// generator, which reads it and never changes it.
#[derive(Debug, PartialEq, Eq)]
pub struct ComponentInterface {
    pub namespace: String,
    pub enums: Vec<EnumDefinition>,
    pub records: Vec<RecordDefinition>,
    pub functions: Vec<FunctionDefinition>,
    pub objects: Vec<ObjectDefinition>,
    pub ffi_bytebuffer_alloc: FfiFunction,
    pub ffi_bytebuffer_free: FfiFunction,
}

/// The mathematical model of a [`ComponentInterface`].
pub struct InterfaceModel {
    pub namespace: Seq<char>,
    pub enums: Seq<EnumModel>,
    pub records: Seq<RecordModel>,
    pub functions: Seq<FunctionModel>,
    pub objects: Seq<ObjectModel>,
    pub ffi_bytebuffer_alloc: FfiFunctionModel,
    pub ffi_bytebuffer_free: FfiFunctionModel,
}

impl View for ComponentInterface {
    type V = InterfaceModel;

    open spec fn view(&self) -> InterfaceModel {
        InterfaceModel {
            namespace: self.namespace@,
            enums: views(self.enums@),
            records: views(self.records@),
            functions: views(self.functions@),
            objects: views(self.objects@),
            ffi_bytebuffer_alloc: self.ffi_bytebuffer_alloc@,
            ffi_bytebuffer_free: self.ffi_bytebuffer_free@,
        }
    }
}

/// The native entry points behind `functions`, in order.
pub open spec fn entry_points_of(functions: Seq<FunctionModel>) -> Seq<FfiFunctionModel> {
    Seq::new(functions.len(), |i: int| functions[i].ffi_func)
}

impl ObjectModel {
    /// The native entry points of this object: those of its constructors,
    /// then those of its methods.
    pub open spec fn entry_points(self) -> Seq<FfiFunctionModel> {
        entry_points_of(self.constructors) + entry_points_of(self.methods)
    }
}

/// The native entry points of `objects`, object by object.
pub open spec fn object_entry_points(objects: Seq<ObjectModel>) -> Seq<FfiFunctionModel>
    decreases objects.len(),
{
    if objects.len() == 0 {
        Seq::empty()
    } else {
        object_entry_points(objects.drop_last()) + objects.last().entry_points()
    }
}

impl InterfaceModel {
    /// Every native entry point of the interface, once: those of the free
    /// functions, those of the objects, and the two that allocate and free
    /// buffers.
    pub open spec fn entry_points(self) -> Seq<FfiFunctionModel> {
        entry_points_of(self.functions) + object_entry_points(self.objects)
            + seq![self.ffi_bytebuffer_alloc, self.ffi_bytebuffer_free]
    }
}

/// Appends the native entry points behind `functions` to `out`.
fn push_entry_points<'a>(out: &mut Vec<&'a FfiFunction>, functions: &'a Vec<FunctionDefinition>)
    ensures
        views(final(out)@) == views(old(out)@) + entry_points_of(views(functions@)),
{
    let mut i: usize = 0;
    proof {
        assert(views(out@) =~= views(old(out)@) + entry_points_of(views(functions@)).take(0));
    }
    while i < functions.len()
        invariant
            i <= functions.len(),
            views(out@) == views(old(out)@) + entry_points_of(views(functions@)).take(i as int),
        decreases functions.len() - i,
    {
        let entry_point = &functions[i].ffi_func;
        proof {
            lemma_views_push(out@, entry_point);
            assert(views(old(out)@) + entry_points_of(views(functions@)).take(i + 1) =~= (views(
                old(out)@,
            ) + entry_points_of(views(functions@)).take(i as int)).push(entry_point@));
        }
        out.push(entry_point);
        i += 1;
    }
    proof {
        assert(entry_points_of(views(functions@)).take(i as int) =~= entry_points_of(
            views(functions@),
        ));
    }
}

impl ComponentInterface {
    /// Every native entry point of the interface, once: those of the free
    /// functions, those of the objects (constructors before methods), and the
    /// two that allocate and free buffers.
    pub fn iter_ffi_function_definitions(&self) -> (r: Vec<&FfiFunction>)
        ensures
            views(r@) == self@.entry_points(),
    {
        let mut out: Vec<&FfiFunction> = Vec::new();
        proof {
            assert(views(out@) =~= Seq::<FfiFunctionModel>::empty());
        }
        push_entry_points(&mut out, &self.functions);
        let ghost of_functions = views(out@);
        proof {
            assert(of_functions =~= entry_points_of(self@.functions));
            assert(of_functions =~= of_functions + object_entry_points(self@.objects.take(0)));
        }
        let mut i: usize = 0;
        while i < self.objects.len()
            invariant
                i <= self.objects.len(),
                of_functions == entry_points_of(self@.functions),
                views(out@) == of_functions + object_entry_points(self@.objects.take(i as int)),
            decreases self.objects.len() - i,
        {
            let ghost before = views(out@);
            push_entry_points(&mut out, &self.objects[i].constructors);
            push_entry_points(&mut out, &self.objects[i].methods);
            proof {
                let objects = self@.objects;
                assert(objects.take(i + 1).drop_last() =~= objects.take(i as int));
                assert(objects.take(i + 1).last() == self.objects[i as int]@);
                assert(views(out@) =~= before + self.objects[i as int]@.entry_points());
                assert(views(out@) =~= of_functions + object_entry_points(objects.take(i + 1)));
            }
            i += 1;
        }
        proof {
            assert(self@.objects.take(i as int) =~= self@.objects);
            lemma_views_push(out@, &self.ffi_bytebuffer_alloc);
            lemma_views_push(out@.push(&self.ffi_bytebuffer_alloc), &self.ffi_bytebuffer_free);
        }
        out.push(&self.ffi_bytebuffer_alloc);
        out.push(&self.ffi_bytebuffer_free);
        proof {
            assert(views(out@) =~= self@.entry_points());
        }
        out
    }
}

/// The first of `enums` that is called `name`.
pub open spec fn find_enum(enums: Seq<EnumModel>, name: Seq<char>) -> Option<EnumModel>
    decreases enums.len(),
{
    if enums.len() == 0 {
        None
    } else if enums[0].name == name {
        Some(enums[0])
    } else {
        find_enum(enums.skip(1), name)
    }
}

/// The first of `records` that is called `name`.
pub open spec fn find_record(records: Seq<RecordModel>, name: Seq<char>) -> Option<RecordModel>
    decreases records.len(),
{
    if records.len() == 0 {
        None
    } else if records[0].name == name {
        Some(records[0])
    } else {
        find_record(records.skip(1), name)
    }
}

impl ComponentInterface {
    /// The definition of the enumeration called `name`: the first, if there
    /// are several.
    pub fn get_enum_definition(&self, name: &str) -> (r: Option<&EnumDefinition>)
        ensures
            match r {
                Some(e) => find_enum(self@.enums, name@) == Some(e@),
                None => find_enum(self@.enums, name@) is None,
            },
    {
        let wanted = String::from_str(name);
        let mut i: usize = 0;
        proof {
            assert(self@.enums.skip(0) =~= self@.enums);
        }
        while i < self.enums.len()
            invariant
                i <= self.enums.len(),
                wanted@ == name@,
                find_enum(self@.enums, name@) == find_enum(self@.enums.skip(i as int), name@),
            decreases self.enums.len() - i,
        {
            proof {
                assert(self@.enums.skip(i as int).skip(1) =~= self@.enums.skip(i + 1));
            }
            if self.enums[i].name == wanted {
                return Some(&self.enums[i]);
            }
            i += 1;
        }
        None
    }

    /// The definition of the record called `name`: the first, if there are
    /// several.
    pub fn get_record_definition(&self, name: &str) -> (r: Option<&RecordDefinition>)
        ensures
            match r {
                Some(record) => find_record(self@.records, name@) == Some(record@),
                None => find_record(self@.records, name@) is None,
            },
    {
        let wanted = String::from_str(name);
        let mut i: usize = 0;
        proof {
            assert(self@.records.skip(0) =~= self@.records);
        }
        while i < self.records.len()
            invariant
                i <= self.records.len(),
                wanted@ == name@,
                find_record(self@.records, name@) == find_record(
                    self@.records.skip(i as int),
                    name@,
                ),
            decreases self.records.len() - i,
        {
            proof {
                assert(self@.records.skip(i as int).skip(1) =~= self@.records.skip(i + 1));
            }
            if self.records[i].name == wanted {
                return Some(&self.records[i]);
            }
            i += 1;
        }
        None
    }
}

/// The position of the first of `names` that equals `name`, counted from zero.
pub open spec fn first_position(names: Seq<Seq<char>>, name: Seq<char>) -> Option<int>
    decreases names.len(),
{
    if names.len() == 0 {
        None
    } else if names[0] == name {
        Some(0)
    } else {
        match first_position(names.skip(1), name) {
            Some(position) => Some(position + 1),
            None => None,
        }
    }
}

impl EnumModel {
    /// Whether no two variants have the same name.
    pub open spec fn distinct(self) -> bool {
        forall|i: int, j: int| 0 <= i < j < self.values.len() ==> self.values[i] != self.values[j]
    }

    /// The ordinal of the variant called `variant`: its position in
    /// declaration order, counted from one. Zero is no variant's ordinal.
    pub open spec fn ordinal_of(self, variant: Seq<char>) -> Option<int> {
        match first_position(self.values, variant) {
            Some(position) => Some(position + 1),
            None => None,
        }
    }

    /// The name of the variant with the ordinal `ordinal`.
    pub open spec fn variant_at(self, ordinal: int) -> Option<Seq<char>> {
        if 1 <= ordinal <= self.values.len() {
            Some(self.values[ordinal - 1])
        } else {
            None
        }
    }
}

/// Where the first occurrence of a name stands: inside the sequence, at an
/// element that equals the name, with no equal element before it.
pub proof fn lemma_first_position(names: Seq<Seq<char>>, name: Seq<char>)
    ensures
        match first_position(names, name) {
            Some(position) => {
                &&& 0 <= position < names.len()
                &&& names[position] == name
                &&& forall|j: int| 0 <= j < position ==> names[j] != name
            },
            None => forall|j: int| 0 <= j < names.len() ==> names[j] != name,
        },
    decreases names.len(),
{
    if names.len() > 0 && names[0] != name {
        lemma_first_position(names.skip(1), name);
        match first_position(names.skip(1), name) {
            Some(position) => {
                assert(names.skip(1)[position] == names[position + 1]);
                assert forall|j: int| 0 <= j < position + 1 implies names[j] != name by {
                    if j > 0 {
                        assert(names.skip(1)[j - 1] == names[j]);
                    }
                }
            },
            None => {
                assert forall|j: int| 0 <= j < names.len() implies names[j] != name by {
                    if j > 0 {
                        assert(names.skip(1)[j - 1] == names[j]);
                    }
                }
            },
        }
    }
}

/// Ordinals follow declaration order: the variants of an enumeration, in the
/// order in which they were declared, have the ordinals one, two, three and
/// so on, and each ordinal leads back to its variant.
pub proof fn lemma_ordinals_follow_declaration(e: EnumModel, index: int)
    requires
        e.distinct(),
        0 <= index < e.values.len(),
    ensures
        e.ordinal_of(e.values[index]) == Some(index + 1),
        e.variant_at(index + 1) == Some(e.values[index]),
{
    lemma_first_position(e.values, e.values[index]);
}

impl EnumDefinition {
    /// The ordinal of the variant called `variant`, if there is such a
    /// variant and its ordinal fits the 32 bits in which it crosses the
    /// boundary.
    pub fn ordinal_of(&self, variant: &str) -> (r: Option<u32>)
        ensures
            match r {
                Some(ordinal) => self@.ordinal_of(variant@) == Some(ordinal as int),
                None => match self@.ordinal_of(variant@) {
                    Some(ordinal) => ordinal > u32::MAX,
                    None => true,
                },
            },
    {
        let wanted = String::from_str(variant);
        let ghost names = self@.values;
        let mut i: usize = 0;
        proof {
            assert(names.skip(0) =~= names);
        }
        while i < self.values.len()
            invariant
                i <= self.values.len(),
                wanted@ == variant@,
                names == self@.values,
                first_position(names, variant@) == match first_position(
                    names.skip(i as int),
                    variant@,
                ) {
                    Some(position) => Some(position + i),
                    None => None,
                },
            decreases self.values.len() - i,
        {
            proof {
                assert(names.skip(i as int).skip(1) =~= names.skip(i + 1));
            }
            if self.values[i] == wanted {
                if i < u32::MAX as usize {
                    return Some((i + 1) as u32);
                } else {
                    return None;
                }
            }
            i += 1;
        }
        None
    }

    /// Decides whether no two variants have the same name, as the ordinals
    /// need it to tell the variants apart.
    pub fn has_distinct_values(&self) -> (r: bool)
        ensures
            r == self@.distinct(),
    {
        let mut j: usize = 0;
        while j < self.values.len()
            invariant
                j <= self.values.len(),
                forall|a: int, b: int| 0 <= a < b < j ==> self@.values[a] != self@.values[b],
            decreases self.values.len() - j,
        {
            let mut i: usize = 0;
            while i < j
                invariant
                    i <= j < self.values.len(),
                    forall|a: int| 0 <= a < i ==> self@.values[a] != self@.values[j as int],
                decreases j - i,
            {
                if self.values[i] == self.values[j] {
                    proof {
                        assert(self@.values[i as int] == self@.values[j as int]);
                    }
                    return false;
                }
                i += 1;
            }
            j += 1;
        }
        true
    }

    /// The name of the variant with the ordinal `ordinal`.
    pub fn variant_at(&self, ordinal: u32) -> (r: Option<&String>)
        ensures
            match r {
                Some(name) => self@.variant_at(ordinal as int) == Some(name@),
                None => self@.variant_at(ordinal as int) is None,
            },
    {
        if 1 <= ordinal && ordinal as usize <= self.values.len() {
            Some(&self.values[(ordinal - 1) as usize])
        } else {
            None
        }
    }
}

} // verus!
