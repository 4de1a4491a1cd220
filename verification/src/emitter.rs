//! The binding emitter: from an interface model to the ordered constructs of
//! the generated module.
//!
//! The order is fixed: the declarations of the native entry points, the
//! enumerations, the records, the free functions, the objects, and last the
//! list of exported names. Emission is all or nothing: the first construct
//! that the type mapper cannot handle aborts it, and nothing is produced.

use crate::constructs::{
    Construct, ConstructModel, EnumType, EnumTypeModel, EnumVariant, EnumVariantModel,
    FunctionBinding, FunctionBindingModel, NativeDeclaration, NativeDeclarationModel, ObjectType,
    ObjectTypeModel, RecordType, RecordTypeModel,
};
use crate::error::{GenerationError, GenerationFailure, Outcome};
use crate::interface::{
    lemma_views_push, views, ComponentInterface, EnumDefinition, EnumModel, FfiFunction,
    FfiFunctionModel, Field, FieldModel, FunctionDefinition, FunctionModel, InterfaceModel,
    ObjectDefinition, ObjectModel, RecordDefinition, RecordModel, TypeKind,
};
use crate::type_mapper::{
    agrees, coerce_py, coerce_py_text, decl_c, decl_c_text, lift_from_py, lift_from_py_text,
    lift_py, lift_py_text, lower_into_py, lower_into_py_text, lower_py, lower_py_text,
    lowers_into_size_py, lowers_into_size_py_text, Prescribed,
};
use vstd::prelude::*;
use vstd::string::*;

verus! {

/// The rules of the type mapper that are applied to a named slot.
#[derive(Clone, Copy, Debug, PartialEq, Eq, Structural)]
pub enum Rule {
    /// The native declaration type of an argument of an entry point.
    Declaration,
    /// The statement that coerces an argument.
    Coercion,
    /// The expression that lowers an argument.
    Lowering,
    /// The expression that reads a field of a record from the stream `buf`.
    LiftingFrom,
    /// The expression for the size of a field of the record `v` in a buffer.
    SizeInBuffer,
    /// The statement that writes a field of the record `v` into the stream `buf`.
    LoweringInto,
}

/// The name of the stream in the code of a record type.
pub open spec fn stream_name() -> Seq<char> {
    "buf"@
}

/// The expression for the field `name` of the record `v`.
pub open spec fn member_of_v(name: Seq<char>) -> Seq<char> {
    "(v."@ + name + ")"@
}

/// What `rule` prescribes for `slot`.
pub open spec fn rule_text(rule: Rule, slot: FieldModel) -> Prescribed {
    match rule {
        Rule::Declaration => decl_c_text(slot.kind),
        Rule::Coercion => coerce_py_text(slot.name, slot.kind),
        Rule::Lowering => lower_py_text(slot.name, slot.kind),
        Rule::LiftingFrom => lift_from_py_text(stream_name(), slot.kind),
        Rule::SizeInBuffer => lowers_into_size_py_text(member_of_v(slot.name), slot.kind),
        Rule::LoweringInto => lower_into_py_text(member_of_v(slot.name), stream_name(), slot.kind),
    }
}

/// What `f` gives for each of `items`, in order; the first failure if there is one.
pub open spec fn try_map<A, B>(
    items: Seq<A>,
    f: spec_fn(A) -> Outcome<B>,
) -> Outcome<Seq<B>>
    decreases items.len(),
{
    if items.len() == 0 {
        Ok(Seq::empty())
    } else {
        match try_map(items.drop_last(), f) {
            Ok(front) => match f(items.last()) {
                Ok(last) => Ok(front.push(last)),
                Err(e) => Err(e),
            },
            Err(e) => Err(e),
        }
    }
}

/// One more item, mapped behind those already mapped.
proof fn lemma_try_map_next<A, B>(
    items: Seq<A>,
    f: spec_fn(A) -> Outcome<B>,
    count: int,
)
    requires
        0 <= count < items.len(),
    ensures
        try_map(items.take(count + 1), f) == match try_map(items.take(count), f) {
            Ok(front) => match f(items[count]) {
                Ok(last) => Ok(front.push(last)),
                Err(e) => Err(e),
            },
            Err(e) => Err::<Seq<B>, GenerationFailure>(e),
        },
{
    assert(items.take(count + 1).drop_last() =~= items.take(count));
    assert(items.take(count + 1).last() == items[count]);
}

/// A failure among the first items is the failure of the whole.
proof fn lemma_try_map_fails<A, B>(
    items: Seq<A>,
    f: spec_fn(A) -> Outcome<B>,
    count: int,
)
    requires
        0 <= count <= items.len(),
        try_map(items.take(count), f) is Err,
    ensures
        try_map(items, f) == try_map(items.take(count), f),
    decreases items.len(),
{
    if count == items.len() {
        assert(items.take(count) =~= items);
    } else {
        assert(items.drop_last().take(count) =~= items.take(count));
        lemma_try_map_fails(items.drop_last(), f, count);
    }
}

/// Mapping is all or nothing: it succeeds exactly when `f` succeeds on every
/// item, and then gives one result for each item, in order.
pub proof fn lemma_try_map_all_or_nothing<A, B>(
    items: Seq<A>,
    f: spec_fn(A) -> Outcome<B>,
)
    ensures
        try_map(items, f) is Ok <==> forall|i: int| 0 <= i < items.len() ==> (#[trigger] f(
            items[i],
        )) is Ok,
        try_map(items, f) matches Ok(mapped) ==> {
            &&& mapped.len() == items.len()
            &&& forall|i: int|
                0 <= i < items.len() ==> f(#[trigger] items[i]) == Ok::<B, GenerationFailure>(
                    mapped[i],
                )
        },
    decreases items.len(),
{
    if items.len() > 0 {
        let front = items.drop_last();
        lemma_try_map_all_or_nothing(front, f);
        assert forall|i: int| 0 <= i < front.len() implies front[i] == items[i] by {}
        if try_map(items, f) is Ok {
            assert forall|i: int| 0 <= i < items.len() implies (#[trigger] f(items[i])) is Ok by {
                if i < front.len() {
                    assert(front[i] == items[i]);
                }
            }
        }
        if forall|i: int| 0 <= i < items.len() ==> (#[trigger] f(items[i])) is Ok {
            assert forall|i: int| 0 <= i < front.len() implies (#[trigger] f(front[i])) is Ok by {
                assert(front[i] == items[i]);
            }
            assert(f(items[items.len() - 1]) is Ok);
        }
        match try_map(items, f) {
            Ok(mapped) => {
                assert forall|i: int| 0 <= i < items.len() implies f(#[trigger] items[i]) == Ok::<
                    B,
                    GenerationFailure,
                >(mapped[i]) by {
                    if i < front.len() {
                        assert(front[i] == items[i]);
                    }
                }
            },
            Err(_) => {},
        }
    }
}

/// What `rule` prescribes for each of `slots`, in order; the first failure if
/// there is one.
pub open spec fn rule_texts(rule: Rule, slots: Seq<FieldModel>) -> Outcome<Seq<Seq<char>>> {
    try_map(slots, |slot: FieldModel| rule_text(rule, slot))
}

/// Applies `rule` to `slot`.
pub fn apply(rule: Rule, slot: &Field) -> (r: Result<String, GenerationError>)
    ensures
        agrees(r, rule_text(rule, slot@)),
{
    match rule {
        Rule::Declaration => decl_c(&slot.type_),
        Rule::Coercion => coerce_py(slot.name.as_str(), &slot.type_),
        Rule::Lowering => lower_py(slot.name.as_str(), &slot.type_),
        Rule::LiftingFrom => lift_from_py("buf", &slot.type_),
        Rule::SizeInBuffer => {
            let mut member = String::from_str("(v.");
            member.append(slot.name.as_str());
            member.append(")");
            lowers_into_size_py(member.as_str(), &slot.type_)
        },
        Rule::LoweringInto => {
            let mut member = String::from_str("(v.");
            member.append(slot.name.as_str());
            member.append(")");
            lower_into_py(member.as_str(), "buf", &slot.type_)
        },
    }
}

/// Applies `rule` to each of `slots` in order and stops at the first failure.
pub fn apply_to_all(rule: Rule, slots: &Vec<Field>) -> (r: Result<Vec<String>, GenerationError>)
    ensures
        match r {
            Ok(texts) => rule_texts(rule, views(slots@)) == Ok::<
                Seq<Seq<char>>,
                GenerationFailure,
            >(views(texts@)),
            Err(e) => rule_texts(rule, views(slots@)) == Err::<Seq<Seq<char>>, GenerationFailure>(
                e@,
            ),
        },
{
    let ghost f = |slot: FieldModel| rule_text(rule, slot);
    let mut texts: Vec<String> = Vec::new();
    let mut i: usize = 0;
    proof {
        assert(views(texts@) =~= Seq::<Seq<char>>::empty());
    }
    while i < slots.len()
        invariant
            i <= slots.len(),
            f == (|slot: FieldModel| rule_text(rule, slot)),
            try_map(views(slots@).take(i as int), f) == Ok::<Seq<Seq<char>>, GenerationFailure>(
                views(texts@),
            ),
        decreases slots.len() - i,
    {
        proof {
            lemma_try_map_next(views(slots@), f, i as int);
        }
        match apply(rule, &slots[i]) {
            Ok(text) => {
                proof {
                    lemma_views_push(texts@, text);
                }
                texts.push(text);
            },
            Err(e) => {
                proof {
                    lemma_try_map_fails(views(slots@), f, i + 1);
                }
                return Err(e);
            },
        }
        i += 1;
    }
    proof {
        assert(views(slots@).take(i as int) =~= views(slots@));
    }
    Ok(texts)
}

/// The names of `slots`, in order.
pub open spec fn names_of(slots: Seq<FieldModel>) -> Seq<Seq<char>> {
    Seq::new(slots.len(), |i: int| slots[i].name)
}

/// The names of `slots`, in order.
pub fn slot_names(slots: &Vec<Field>) -> (r: Vec<String>)
    ensures
        views(r@) == names_of(views(slots@)),
{
    let mut names: Vec<String> = Vec::new();
    let mut i: usize = 0;
    while i < slots.len()
        invariant
            i <= slots.len(),
            views(names@) == names_of(views(slots@)).take(i as int),
        decreases slots.len() - i,
    {
        proof {
            lemma_views_push(names@, slots[i as int].name);
            assert(names_of(views(slots@)).take(i + 1) =~= names_of(views(slots@)).take(
                i as int,
            ).push(slots[i as int].name@));
        }
        names.push(slots[i].name.clone());
        i += 1;
    }
    proof {
        assert(names_of(views(slots@)).take(i as int) =~= names_of(views(slots@)));
    }
    names
}

/// The outcome `r` of building one construct is what `expected` prescribes.
pub open spec fn built<T: View>(
    r: Result<T, GenerationError>,
    expected: Outcome<T::V>,
) -> bool {
    match r {
        Ok(item) => expected == Ok::<T::V, GenerationFailure>(item@),
        Err(e) => expected == Err::<T::V, GenerationFailure>(e@),
    }
}

/// What the rule `f` prescribes for a type that may be missing.
pub open spec fn for_result(t: Option<TypeKind>, f: spec_fn(TypeKind) -> Prescribed) -> Outcome<
    Option<Seq<char>>,
> {
    match t {
        Some(kind) => match f(kind) {
            Ok(text) => Ok(Some(text)),
            Err(e) => Err(e),
        },
        None => Ok(None),
    }
}

/// The name that holds what a native entry point returned.
pub open spec fn result_name() -> Seq<char> {
    "_retval"@
}

/// The name of the handle of an object, as a method passes it on.
pub open spec fn handle_name() -> Seq<char> {
    "self._handle"@
}

/// The declaration of the native entry point `f`: the declaration type of
/// each argument, in order, and that of the result.
pub open spec fn native_declaration_of(f: FfiFunctionModel) -> Outcome<NativeDeclarationModel> {
    match rule_texts(Rule::Declaration, f.arguments) {
        Ok(argtypes) => match for_result(f.return_type, |t: TypeKind| decl_c_text(t)) {
            Ok(restype) => Ok(NativeDeclarationModel { name: f.name, argtypes, restype }),
            Err(e) => Err(e),
        },
        Err(e) => Err(e),
    }
}

/// Builds the declaration of the native entry point `f`.
pub fn declare(f: &FfiFunction) -> (r: Result<NativeDeclaration, GenerationError>)
    ensures
        built(r, native_declaration_of(f@)),
{
    let argtypes = match apply_to_all(Rule::Declaration, &f.arguments) {
        Ok(argtypes) => argtypes,
        Err(e) => {
            return Err(e);
        },
    };
    let restype = match &f.return_type {
        Some(t) => match decl_c(t) {
            Ok(text) => Some(text),
            Err(e) => {
                return Err(e);
            },
        },
        None => None,
    };
    Ok(NativeDeclaration { name: f.name.clone(), argtypes, restype })
}

/// The enumeration type for `e`: its variants in declaration order, the
/// first with ordinal one.
pub open spec fn enum_type_of(e: EnumModel) -> EnumTypeModel {
    EnumTypeModel {
        name: e.name,
        variants: Seq::new(
            e.values.len(),
            |i: int| EnumVariantModel { name: e.values[i], ordinal: (i + 1) as nat },
        ),
    }
}

/// Builds the enumeration type for `e`.
pub fn enum_type(e: &EnumDefinition) -> (r: EnumType)
    ensures
        r@ == enum_type_of(e@),
{
    let mut variants: Vec<EnumVariant> = Vec::new();
    let mut i: usize = 0;
    while i < e.values.len()
        invariant
            i <= e.values.len(),
            views(variants@) == enum_type_of(e@).variants.take(i as int),
        decreases e.values.len() - i,
    {
        let variant = EnumVariant { name: e.values[i].clone(), ordinal: i + 1 };
        proof {
            lemma_views_push(variants@, variant);
            assert(enum_type_of(e@).variants.take(i + 1) =~= enum_type_of(e@).variants.take(
                i as int,
            ).push(variant@));
        }
        variants.push(variant);
        i += 1;
    }
    proof {
        assert(enum_type_of(e@).variants.take(i as int) =~= enum_type_of(e@).variants);
    }
    EnumType { name: e.name.clone(), variants }
}

/// The record type for `record`: for each field, in declared order, how it
/// is read from a buffer, how much room it takes there, and how it is written.
pub open spec fn record_type_of(record: RecordModel) -> Outcome<RecordTypeModel> {
    match rule_texts(Rule::LiftingFrom, record.fields) {
        Ok(lift_from) => match rule_texts(Rule::SizeInBuffer, record.fields) {
            Ok(lowers_into_size) => match rule_texts(Rule::LoweringInto, record.fields) {
                Ok(lower_into) => Ok(
                    RecordTypeModel {
                        name: record.name,
                        fields: names_of(record.fields),
                        lift_from,
                        lowers_into_size,
                        lower_into,
                    },
                ),
                Err(e) => Err(e),
            },
            Err(e) => Err(e),
        },
        Err(e) => Err(e),
    }
}

/// Builds the record type for `record`.
pub fn record_type(record: &RecordDefinition) -> (r: Result<RecordType, GenerationError>)
    ensures
        built(r, record_type_of(record@)),
{
    let lift_from = match apply_to_all(Rule::LiftingFrom, &record.fields) {
        Ok(texts) => texts,
        Err(e) => {
            return Err(e);
        },
    };
    let lowers_into_size = match apply_to_all(Rule::SizeInBuffer, &record.fields) {
        Ok(texts) => texts,
        Err(e) => {
            return Err(e);
        },
    };
    let lower_into = match apply_to_all(Rule::LoweringInto, &record.fields) {
        Ok(texts) => texts,
        Err(e) => {
            return Err(e);
        },
    };
    Ok(
        RecordType {
            name: record.name.clone(),
            fields: slot_names(&record.fields),
            lift_from,
            lowers_into_size,
            lower_into,
        },
    )
}

/// The three ways in which a callable hands over its arguments and takes its
/// result.
#[derive(Clone, Copy, Debug, PartialEq, Eq, Structural)]
pub enum Calling {
    /// A free function: the lowered arguments go in, the result is lifted.
    Function,
    /// A constructor: the lowered arguments go in, the result is the handle
    /// and is kept as it is.
    Constructor,
    /// A method: the handle goes in first, then the lowered arguments, and
    /// the result is lifted.
    Method,
}

/// The binding for `f`, called in the way `calling`.
pub open spec fn binding_of(calling: Calling, f: FunctionModel) -> Outcome<FunctionBindingModel> {
    match rule_texts(Rule::Coercion, f.arguments) {
        Ok(coercions) => match rule_texts(Rule::Lowering, f.arguments) {
            Ok(lowered) => match for_result(
                if calling == Calling::Constructor {
                    None
                } else {
                    f.return_type
                },
                |t: TypeKind| lift_py_text(result_name(), t),
            ) {
                Ok(lifted_result) => Ok(
                    FunctionBindingModel {
                        name: f.name,
                        parameters: names_of(f.arguments),
                        coercions,
                        entry_point: f.ffi_func.name,
                        lowered_arguments: if calling == Calling::Method {
                            seq![handle_name()] + lowered
                        } else {
                            lowered
                        },
                        lifted_result,
                    },
                ),
                Err(e) => Err(e),
            },
            Err(e) => Err(e),
        },
        Err(e) => Err(e),
    }
}

/// Builds the binding for `f`, called in the way `calling`.
pub fn binding(calling: Calling, f: &FunctionDefinition) -> (r: Result<
    FunctionBinding,
    GenerationError,
>)
    ensures
        built(r, binding_of(calling, f@)),
{
    let coercions = match apply_to_all(Rule::Coercion, &f.arguments) {
        Ok(texts) => texts,
        Err(e) => {
            return Err(e);
        },
    };
    let mut lowered = match apply_to_all(Rule::Lowering, &f.arguments) {
        Ok(texts) => texts,
        Err(e) => {
            return Err(e);
        },
    };
    let mut lifted_result: Option<String> = None;
    match calling {
        Calling::Constructor => {},
        _ => {
            match &f.return_type {
                Some(t) => match lift_py("_retval", t) {
                    Ok(text) => {
                        lifted_result = Some(text);
                    },
                    Err(e) => {
                        return Err(e);
                    },
                },
                None => {},
            }
        },
    }
    let mut lowered_arguments: Vec<String> = Vec::new();
    match calling {
        Calling::Method => {
            lowered_arguments.push(String::from_str("self._handle"));
        },
        _ => {},
    }
    let ghost before = lowered_arguments@;
    let ghost behind = lowered@;
    lowered_arguments.append(&mut lowered);
    proof {
        assert(views(before + behind) =~= views(before) + views(behind));
        assert(views(before) =~= if calling == Calling::Method {
            seq![handle_name()]
        } else {
            Seq::<Seq<char>>::empty()
        });
    }
    Ok(
        FunctionBinding {
            name: f.name.clone(),
            parameters: slot_names(&f.arguments),
            coercions,
            entry_point: f.ffi_func.name.clone(),
            lowered_arguments,
            lifted_result,
        },
    )
}

/// The object type for `object`. An object must have exactly one constructor.
pub open spec fn object_type_of(object: ObjectModel) -> Outcome<ObjectTypeModel> {
    if object.constructors.len() != 1 {
        Err(
            GenerationFailure::UnsupportedConstructorArity {
                object: object.name,
                count: object.constructors.len(),
            },
        )
    } else {
        match binding_of(Calling::Constructor, object.constructors[0]) {
            Ok(constructor) => match try_map(
                object.methods,
                |m: FunctionModel| binding_of(Calling::Method, m),
            ) {
                Ok(methods) => Ok(ObjectTypeModel { name: object.name, constructor, methods }),
                Err(e) => Err(e),
            },
            Err(e) => Err(e),
        }
    }
}

/// Builds the object type for `object`.
pub fn object_type(object: &ObjectDefinition) -> (r: Result<ObjectType, GenerationError>)
    ensures
        built(r, object_type_of(object@)),
{
    if object.constructors.len() != 1 {
        return Err(
            GenerationError::UnsupportedConstructorArity {
                object: object.name.clone(),
                count: object.constructors.len(),
            },
        );
    }
    let constructor = match binding(Calling::Constructor, &object.constructors[0]) {
        Ok(constructor) => constructor,
        Err(e) => {
            return Err(e);
        },
    };
    let ghost f = |m: FunctionModel| binding_of(Calling::Method, m);
    let mut methods: Vec<FunctionBinding> = Vec::new();
    let mut i: usize = 0;
    proof {
        assert(views(methods@) =~= Seq::<FunctionBindingModel>::empty());
    }
    while i < object.methods.len()
        invariant
            i <= object.methods.len(),
            object@.constructors.len() == 1,
            binding_of(Calling::Constructor, object@.constructors[0]) is Ok,
            f == (|m: FunctionModel| binding_of(Calling::Method, m)),
            try_map(views(object.methods@).take(i as int), f) == Ok::<
                Seq<FunctionBindingModel>,
                GenerationFailure,
            >(views(methods@)),
        decreases object.methods.len() - i,
    {
        proof {
            lemma_try_map_next(views(object.methods@), f, i as int);
        }
        match binding(Calling::Method, &object.methods[i]) {
            Ok(method) => {
                proof {
                    lemma_views_push(methods@, method);
                }
                methods.push(method);
            },
            Err(e) => {
                proof {
                    lemma_try_map_fails(views(object.methods@), f, i + 1);
                }
                return Err(e);
            },
        }
        i += 1;
    }
    proof {
        assert(views(object.methods@).take(i as int) =~= views(object.methods@));
    }
    Ok(ObjectType { name: object.name.clone(), constructor, methods })
}

/// The outcome `r` of building a run of constructs is what `expected` prescribes.
pub open spec fn built_all(
    r: Result<Vec<Construct>, GenerationError>,
    expected: Outcome<Seq<ConstructModel>>,
) -> bool {
    match r {
        Ok(constructs) => expected == Ok::<Seq<ConstructModel>, GenerationFailure>(
            views(constructs@),
        ),
        Err(e) => expected == Err::<Seq<ConstructModel>, GenerationFailure>(e@),
    }
}

/// The construct that declares the native entry point `item`.
pub open spec fn declaration_construct(item: FfiFunctionModel) -> Outcome<ConstructModel> {
    match native_declaration_of(item) {
        Ok(built) => Ok(ConstructModel::NativeDeclaration(built)),
        Err(e) => Err(e),
    }
}

/// Builds the declarations of the native entry points `items`, in order.
pub fn declare_all(items: &Vec<&FfiFunction>) -> (r: Result<Vec<Construct>, GenerationError>)
    ensures
        built_all(r, try_map(views(items@), |item: FfiFunctionModel| declaration_construct(item))),
{
    let ghost f = |item: FfiFunctionModel| declaration_construct(item);
    let mut constructs: Vec<Construct> = Vec::new();
    let mut i: usize = 0;
    proof {
        assert(views(constructs@) =~= Seq::<ConstructModel>::empty());
    }
    while i < items.len()
        invariant
            i <= items.len(),
            f == (|item: FfiFunctionModel| declaration_construct(item)),
            try_map(views(items@).take(i as int), f) == Ok::<
                Seq<ConstructModel>,
                GenerationFailure,
            >(views(constructs@)),
        decreases items.len() - i,
    {
        proof {
            lemma_try_map_next(views(items@), f, i as int);
        }
        match declare(items[i]) {
            Ok(built) => {
                let construct = Construct::NativeDeclaration(built);
                proof {
                    lemma_views_push(constructs@, construct);
                }
                constructs.push(construct);
            },
            Err(e) => {
                proof {
                    lemma_try_map_fails(views(items@), f, i + 1);
                }
                return Err(e);
            },
        }
        i += 1;
    }
    proof {
        assert(views(items@).take(i as int) =~= views(items@));
    }
    Ok(constructs)
}

/// The construct for the record `item`.
pub open spec fn record_construct(item: RecordModel) -> Outcome<ConstructModel> {
    match record_type_of(item) {
        Ok(built) => Ok(ConstructModel::RecordType(built)),
        Err(e) => Err(e),
    }
}

/// Builds the record types for `items`, in order.
pub fn record_types(items: &Vec<RecordDefinition>) -> (r: Result<
    Vec<Construct>,
    GenerationError,
>)
    ensures
        built_all(r, try_map(views(items@), |item: RecordModel| record_construct(item))),
{
    let ghost f = |item: RecordModel| record_construct(item);
    let mut constructs: Vec<Construct> = Vec::new();
    let mut i: usize = 0;
    proof {
        assert(views(constructs@) =~= Seq::<ConstructModel>::empty());
    }
    while i < items.len()
        invariant
            i <= items.len(),
            f == (|item: RecordModel| record_construct(item)),
            try_map(views(items@).take(i as int), f) == Ok::<
                Seq<ConstructModel>,
                GenerationFailure,
            >(views(constructs@)),
        decreases items.len() - i,
    {
        proof {
            lemma_try_map_next(views(items@), f, i as int);
        }
        match record_type(&items[i]) {
            Ok(built) => {
                let construct = Construct::RecordType(built);
                proof {
                    lemma_views_push(constructs@, construct);
                }
                constructs.push(construct);
            },
            Err(e) => {
                proof {
                    lemma_try_map_fails(views(items@), f, i + 1);
                }
                return Err(e);
            },
        }
        i += 1;
    }
    proof {
        assert(views(items@).take(i as int) =~= views(items@));
    }
    Ok(constructs)
}

/// The construct for the free function `item`.
pub open spec fn function_construct(item: FunctionModel) -> Outcome<ConstructModel> {
    match binding_of(Calling::Function, item) {
        Ok(built) => Ok(ConstructModel::Function(built)),
        Err(e) => Err(e),
    }
}

/// Builds the bindings of the free functions `items`, in order.
pub fn function_bindings(items: &Vec<FunctionDefinition>) -> (r: Result<
    Vec<Construct>,
    GenerationError,
>)
    ensures
        built_all(r, try_map(views(items@), |item: FunctionModel| function_construct(item))),
{
    let ghost f = |item: FunctionModel| function_construct(item);
    let mut constructs: Vec<Construct> = Vec::new();
    let mut i: usize = 0;
    proof {
        assert(views(constructs@) =~= Seq::<ConstructModel>::empty());
    }
    while i < items.len()
        invariant
            i <= items.len(),
            f == (|item: FunctionModel| function_construct(item)),
            try_map(views(items@).take(i as int), f) == Ok::<
                Seq<ConstructModel>,
                GenerationFailure,
            >(views(constructs@)),
        decreases items.len() - i,
    {
        proof {
            lemma_try_map_next(views(items@), f, i as int);
        }
        match binding(Calling::Function, &items[i]) {
            Ok(built) => {
                let construct = Construct::Function(built);
                proof {
                    lemma_views_push(constructs@, construct);
                }
                constructs.push(construct);
            },
            Err(e) => {
                proof {
                    lemma_try_map_fails(views(items@), f, i + 1);
                }
                return Err(e);
            },
        }
        i += 1;
    }
    proof {
        assert(views(items@).take(i as int) =~= views(items@));
    }
    Ok(constructs)
}

/// The construct for the object `item`.
pub open spec fn object_construct(item: ObjectModel) -> Outcome<ConstructModel> {
    match object_type_of(item) {
        Ok(built) => Ok(ConstructModel::ObjectType(built)),
        Err(e) => Err(e),
    }
}

/// Builds the object types for `items`, in order.
pub fn object_types(items: &Vec<ObjectDefinition>) -> (r: Result<
    Vec<Construct>,
    GenerationError,
>)
    ensures
        built_all(r, try_map(views(items@), |item: ObjectModel| object_construct(item))),
{
    let ghost f = |item: ObjectModel| object_construct(item);
    let mut constructs: Vec<Construct> = Vec::new();
    let mut i: usize = 0;
    proof {
        assert(views(constructs@) =~= Seq::<ConstructModel>::empty());
    }
    while i < items.len()
        invariant
            i <= items.len(),
            f == (|item: ObjectModel| object_construct(item)),
            try_map(views(items@).take(i as int), f) == Ok::<
                Seq<ConstructModel>,
                GenerationFailure,
            >(views(constructs@)),
        decreases items.len() - i,
    {
        proof {
            lemma_try_map_next(views(items@), f, i as int);
        }
        match object_type(&items[i]) {
            Ok(built) => {
                let construct = Construct::ObjectType(built);
                proof {
                    lemma_views_push(constructs@, construct);
                }
                constructs.push(construct);
            },
            Err(e) => {
                proof {
                    lemma_try_map_fails(views(items@), f, i + 1);
                }
                return Err(e);
            },
        }
        i += 1;
    }
    proof {
        assert(views(items@).take(i as int) =~= views(items@));
    }
    Ok(constructs)
}

/// The constructs for the enumerations `enums`, in order.
pub open spec fn enum_constructs(enums: Seq<EnumModel>) -> Seq<ConstructModel> {
    Seq::new(enums.len(), |i: int| ConstructModel::EnumType(enum_type_of(enums[i])))
}

/// Builds the enumeration types for `items`, in order.
pub fn enum_types(items: &Vec<EnumDefinition>) -> (r: Vec<Construct>)
    ensures
        views(r@) == enum_constructs(views(items@)),
{
    let mut constructs: Vec<Construct> = Vec::new();
    let mut i: usize = 0;
    while i < items.len()
        invariant
            i <= items.len(),
            views(constructs@) == enum_constructs(views(items@)).take(i as int),
        decreases items.len() - i,
    {
        let construct = Construct::EnumType(enum_type(&items[i]));
        proof {
            lemma_views_push(constructs@, construct);
            assert(enum_constructs(views(items@)).take(i + 1) =~= enum_constructs(
                views(items@),
            ).take(i as int).push(construct@));
        }
        constructs.push(construct);
        i += 1;
    }
    proof {
        assert(enum_constructs(views(items@)).take(i as int) =~= enum_constructs(views(items@)));
    }
    constructs
}

/// The names that the generated module exports: every enumeration, record,
/// free function and object, in that order.
pub open spec fn exports_of(ci: InterfaceModel) -> Seq<Seq<char>> {
    Seq::new(ci.enums.len(), |i: int| ci.enums[i].name) + Seq::new(
        ci.records.len(),
        |i: int| ci.records[i].name,
    ) + Seq::new(ci.functions.len(), |i: int| ci.functions[i].name) + Seq::new(
        ci.objects.len(),
        |i: int| ci.objects[i].name,
    )
}

/// Builds the list of exported names.
pub fn export_list(ci: &ComponentInterface) -> (r: Vec<String>)
    ensures
        views(r@) == exports_of(ci@),
{
    let mut names: Vec<String> = Vec::new();
    let ghost enums = Seq::new(ci@.enums.len(), |i: int| ci@.enums[i].name);
    let ghost records = Seq::new(ci@.records.len(), |i: int| ci@.records[i].name);
    let ghost functions = Seq::new(ci@.functions.len(), |i: int| ci@.functions[i].name);
    let ghost objects = Seq::new(ci@.objects.len(), |i: int| ci@.objects[i].name);
    let mut i: usize = 0;
    while i < ci.enums.len()
        invariant
            i <= ci.enums.len(),
            enums == Seq::new(ci@.enums.len(), |i: int| ci@.enums[i].name),
            views(names@) == enums.take(i as int),
        decreases ci.enums.len() - i,
    {
        proof {
            lemma_views_push(names@, ci.enums[i as int].name);
            assert(enums.take(i + 1) =~= enums.take(i as int).push(ci.enums[i as int].name@));
        }
        names.push(ci.enums[i].name.clone());
        i += 1;
    }
    proof {
        assert(views(names@) =~= enums + records.take(0));
    }
    i = 0;
    while i < ci.records.len()
        invariant
            i <= ci.records.len(),
            records == Seq::new(ci@.records.len(), |i: int| ci@.records[i].name),
            views(names@) == enums + records.take(i as int),
        decreases ci.records.len() - i,
    {
        proof {
            lemma_views_push(names@, ci.records[i as int].name);
            assert(enums + records.take(i + 1) =~= (enums + records.take(i as int)).push(
                ci.records[i as int].name@,
            ));
        }
        names.push(ci.records[i].name.clone());
        i += 1;
    }
    proof {
        assert(views(names@) =~= enums + records + functions.take(0));
    }
    i = 0;
    while i < ci.functions.len()
        invariant
            i <= ci.functions.len(),
            functions == Seq::new(ci@.functions.len(), |i: int| ci@.functions[i].name),
            views(names@) == enums + records + functions.take(i as int),
        decreases ci.functions.len() - i,
    {
        proof {
            lemma_views_push(names@, ci.functions[i as int].name);
            assert(enums + records + functions.take(i + 1) =~= (enums + records + functions.take(
                i as int,
            )).push(ci.functions[i as int].name@));
        }
        names.push(ci.functions[i].name.clone());
        i += 1;
    }
    proof {
        assert(views(names@) =~= enums + records + functions + objects.take(0));
    }
    i = 0;
    while i < ci.objects.len()
        invariant
            i <= ci.objects.len(),
            objects == Seq::new(ci@.objects.len(), |i: int| ci@.objects[i].name),
            views(names@) == enums + records + functions + objects.take(i as int),
        decreases ci.objects.len() - i,
    {
        proof {
            lemma_views_push(names@, ci.objects[i as int].name);
            assert(enums + records + functions + objects.take(i + 1) =~= (enums + records
                + functions + objects.take(i as int)).push(ci.objects[i as int].name@));
        }
        names.push(ci.objects[i].name.clone());
        i += 1;
    }
    proof {
        assert(views(names@) =~= exports_of(ci@));
    }
    names
}

/// The constructs of the generated module for `ci`, in their fixed order: the
/// declarations of the native entry points, the enumerations, the records,
/// the free functions, the objects, and the list of exported names. A model
/// with a construct that cannot be handled gives the first failure, and no
/// construct at all.
pub open spec fn emitted(ci: InterfaceModel) -> Outcome<Seq<ConstructModel>> {
    match try_map(ci.entry_points(), |item: FfiFunctionModel| declaration_construct(item)) {
        Ok(declarations) => match try_map(ci.records, |item: RecordModel| record_construct(item)) {
            Ok(records) => match try_map(
                ci.functions,
                |item: FunctionModel| function_construct(item),
            ) {
                Ok(functions) => match try_map(
                    ci.objects,
                    |item: ObjectModel| object_construct(item),
                ) {
                    Ok(objects) => Ok(
                        declarations + enum_constructs(ci.enums) + records + functions + objects
                            + seq![ConstructModel::ExportList(exports_of(ci))],
                    ),
                    Err(e) => Err(e),
                },
                Err(e) => Err(e),
            },
            Err(e) => Err(e),
        },
        Err(e) => Err(e),
    }
}

/// Emits the constructs of the generated module for `ci`.
pub fn emit(ci: &ComponentInterface) -> (r: Result<Vec<Construct>, GenerationError>)
    ensures
        built_all(r, emitted(ci@)),
{
    let entry_points = ci.iter_ffi_function_definitions();
    let mut constructs = match declare_all(&entry_points) {
        Ok(constructs) => constructs,
        Err(e) => {
            return Err(e);
        },
    };
    let mut enums = enum_types(&ci.enums);
    let mut records = match record_types(&ci.records) {
        Ok(constructs) => constructs,
        Err(e) => {
            return Err(e);
        },
    };
    let mut functions = match function_bindings(&ci.functions) {
        Ok(constructs) => constructs,
        Err(e) => {
            return Err(e);
        },
    };
    let mut objects = match object_types(&ci.objects) {
        Ok(constructs) => constructs,
        Err(e) => {
            return Err(e);
        },
    };
    let exports = Construct::ExportList(export_list(ci));
    let ghost parts = (
        views(constructs@),
        views(enums@),
        views(records@),
        views(functions@),
        views(objects@),
    );
    let ghost whole = constructs@ + enums@ + records@ + functions@ + objects@;
    proof {
        assert(views(whole) =~= parts.0 + parts.1 + parts.2 + parts.3 + parts.4);
        lemma_views_push(whole, exports);
    }
    constructs.append(&mut enums);
    constructs.append(&mut records);
    constructs.append(&mut functions);
    constructs.append(&mut objects);
    constructs.push(exports);
    proof {
        assert(views(constructs@) =~= views(whole) + seq![exports@]);
    }
    Ok(constructs)
}

/// The order of emission is fixed: first one declaration for each native
/// entry point, then one type for each enumeration, one for each record, one
/// binding for each free function, one type for each object, and last the
/// list of exports. Within each section the constructs stand in the order of
/// the definitions that they were built from.
pub proof fn lemma_emission_order(ci: InterfaceModel)
    requires
        emitted(ci) is Ok,
    ensures
        ({
            let constructs = emitted(ci)->Ok_0;
            let enums = ci.entry_points().len() as int;
            let records = enums + ci.enums.len();
            let functions = records + ci.records.len();
            let objects = functions + ci.functions.len();
            let exports = objects + ci.objects.len();
            &&& constructs.len() == exports + 1
            &&& forall|k: int|
                0 <= k < enums ==> #[trigger] constructs[k] == ConstructModel::NativeDeclaration(
                    native_declaration_of(ci.entry_points()[k])->Ok_0,
                )
            &&& forall|k: int|
                enums <= k < records ==> #[trigger] constructs[k] == ConstructModel::EnumType(
                    enum_type_of(ci.enums[k - enums]),
                )
            &&& forall|k: int|
                records <= k < functions ==> #[trigger] constructs[k] == ConstructModel::RecordType(
                    record_type_of(ci.records[k - records])->Ok_0,
                )
            &&& forall|k: int|
                functions <= k < objects ==> #[trigger] constructs[k] == ConstructModel::Function(
                    binding_of(Calling::Function, ci.functions[k - functions])->Ok_0,
                )
            &&& forall|k: int|
                objects <= k < exports ==> #[trigger] constructs[k] == ConstructModel::ObjectType(
                    object_type_of(ci.objects[k - objects])->Ok_0,
                )
            &&& constructs[exports] == ConstructModel::ExportList(exports_of(ci))
        }),
{
    lemma_try_map_all_or_nothing(
        ci.entry_points(),
        |item: FfiFunctionModel| declaration_construct(item),
    );
    lemma_try_map_all_or_nothing(ci.records, |item: RecordModel| record_construct(item));
    lemma_try_map_all_or_nothing(ci.functions, |item: FunctionModel| function_construct(item));
    lemma_try_map_all_or_nothing(ci.objects, |item: ObjectModel| object_construct(item));
}

/// Every free function calls a native entry point that is declared: the
/// binding of the function in place `index` names the entry point that the
/// declaration in place `index` declares.
pub proof fn lemma_functions_call_declared_entry_points(ci: InterfaceModel, index: int)
    requires
        emitted(ci) is Ok,
        0 <= index < ci.functions.len(),
    ensures
        ({
            let constructs = emitted(ci)->Ok_0;
            let functions = ci.entry_points().len() + ci.enums.len() + ci.records.len();
            &&& constructs[index] is NativeDeclaration
            &&& constructs[functions + index] is Function
            &&& constructs[index]->NativeDeclaration_0.name == constructs[functions
                + index]->Function_0.entry_point
        }),
{
    lemma_emission_order(ci);
    assert(ci.entry_points()[index] == ci.functions[index].ffi_func);
    let constructs = emitted(ci)->Ok_0;
    let functions = ci.entry_points().len() + ci.enums.len() + ci.records.len();
    assert(constructs[index] == ConstructModel::NativeDeclaration(
        native_declaration_of(ci.entry_points()[index])->Ok_0,
    ));
    assert(constructs[functions + index] == ConstructModel::Function(
        binding_of(Calling::Function, ci.functions[index])->Ok_0,
    ));
    lemma_emission_is_all_or_nothing(ci);
    assert(native_declaration_of(ci.entry_points()[index]) is Ok);
    assert(binding_of(Calling::Function, ci.functions[index]) is Ok);
}

/// Options that shape the generated module without touching the component
/// underneath, whose details the interface alone decides. There are none yet.
#[derive(Clone, Copy, Debug, PartialEq, Eq, Structural)]
pub struct Config {}

impl Config {
    /// The options that suit `ci`.
    pub fn from(_ci: &ComponentInterface) -> (r: Config)
        ensures
            r == (Config {  }),
    {
        Config {  }
    }
}

/// The Python module for one component interface, ready to be emitted.
#[derive(Debug)]
pub struct PythonWrapper<'a> {
    config: Config,
    ci: &'a ComponentInterface,
}

impl<'a> PythonWrapper<'a> {
    /// The options that the wrapper was made with.
    pub closed spec fn options(&self) -> Config {
        self.config
    }

    /// The interface that the wrapper was made for.
    pub closed spec fn interface(&self) -> &'a ComponentInterface {
        self.ci
    }

    /// The wrapper for `ci`, with the options `config`.
    pub fn new(config: Config, ci: &'a ComponentInterface) -> (r: PythonWrapper<'a>)
        ensures
            r.options() == config,
            r.interface() == ci,
    {
        PythonWrapper { config, ci }
    }

    /// The options that the wrapper was made with.
    pub fn config(&self) -> (r: Config)
        ensures
            r == self.options(),
    {
        self.config
    }

    /// The interface that the wrapper was made for.
    pub fn ci(&self) -> (r: &'a ComponentInterface)
        ensures
            r == self.interface(),
    {
        self.ci
    }

    /// Emits the constructs of the module, all of them or none.
    pub fn constructs(&self) -> (r: Result<Vec<Construct>, GenerationError>)
        ensures
            built_all(r, emitted(self.interface()@)),
    {
        emit(self.ci)
    }
}

/// Emission is all or nothing: constructs come out exactly when every entry
/// point can be declared and every record, free function and object can be
/// built. Then there is one construct for each of them and for each
/// enumeration, and one more for the list of exports.
pub proof fn lemma_emission_is_all_or_nothing(ci: InterfaceModel)
    ensures
        emitted(ci) is Ok <==> {
            &&& forall|i: int|
                0 <= i < ci.entry_points().len() ==> (#[trigger] native_declaration_of(
                    ci.entry_points()[i],
                )) is Ok
            &&& forall|i: int|
                0 <= i < ci.records.len() ==> (#[trigger] record_type_of(ci.records[i])) is Ok
            &&& forall|i: int|
                0 <= i < ci.functions.len() ==> (#[trigger] binding_of(
                    Calling::Function,
                    ci.functions[i],
                )) is Ok
            &&& forall|i: int|
                0 <= i < ci.objects.len() ==> (#[trigger] object_type_of(ci.objects[i])) is Ok
        },
        emitted(ci) matches Ok(constructs) ==> constructs.len() == ci.entry_points().len()
            + ci.enums.len() + ci.records.len() + ci.functions.len() + ci.objects.len() + 1,
{
    let declare = |item: FfiFunctionModel| declaration_construct(item);
    let record = |item: RecordModel| record_construct(item);
    let function = |item: FunctionModel| function_construct(item);
    let object = |item: ObjectModel| object_construct(item);
    lemma_try_map_all_or_nothing(ci.entry_points(), declare);
    lemma_try_map_all_or_nothing(ci.records, record);
    lemma_try_map_all_or_nothing(ci.functions, function);
    lemma_try_map_all_or_nothing(ci.objects, object);
    assert forall|i: int| 0 <= i < ci.entry_points().len() implies (declare(
        ci.entry_points()[i],
    ) is Ok <==> (#[trigger] native_declaration_of(ci.entry_points()[i])) is Ok) by {}
    assert forall|i: int| 0 <= i < ci.records.len() implies (record(ci.records[i]) is Ok <==> (
    #[trigger] record_type_of(ci.records[i])) is Ok) by {}
    assert forall|i: int| 0 <= i < ci.functions.len() implies (function(ci.functions[i]) is Ok
        <==> (#[trigger] binding_of(Calling::Function, ci.functions[i])) is Ok) by {}
    assert forall|i: int| 0 <= i < ci.objects.len() implies (object(ci.objects[i]) is Ok <==> (
    #[trigger] object_type_of(ci.objects[i])) is Ok) by {}
}

} // verus!
