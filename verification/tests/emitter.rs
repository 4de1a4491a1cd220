use pybindgen::constructs::{
    Construct, EnumType, EnumVariant, FunctionBinding, NativeDeclaration, ObjectType, RecordType,
};
use pybindgen::emitter::{
    apply, apply_to_all, binding, declare, emit, enum_type, export_list, object_type, record_type,
    Calling, Config, PythonWrapper, Rule,
};
use pybindgen::error::GenerationError;
use pybindgen::interface::{
    ComponentInterface, EnumDefinition, FfiFunction, Field, FunctionDefinition, ObjectDefinition,
    RecordDefinition, TypeReference,
};

fn text(value: &str) -> String {
    value.to_string()
}

fn texts(values: &[&str]) -> Vec<String> {
    values.iter().map(|value| value.to_string()).collect()
}

fn slot(name: &str, type_: TypeReference) -> Field {
    Field { name: text(name), type_ }
}

fn point_type() -> TypeReference {
    TypeReference::Record(text("Point"))
}

fn color_type() -> TypeReference {
    TypeReference::Enum(text("Color"))
}

fn canvas_type() -> TypeReference {
    TypeReference::Object(text("Canvas"))
}

fn sequence_type() -> TypeReference {
    TypeReference::Sequence(Box::new(TypeReference::U32))
}

fn optional(inner: TypeReference) -> TypeReference {
    TypeReference::Optional(Box::new(inner))
}

fn entry_point(
    name: &str,
    arguments: Vec<Field>,
    return_type: Option<TypeReference>,
) -> FfiFunction {
    FfiFunction { name: text(name), arguments, return_type }
}

fn colors() -> EnumDefinition {
    EnumDefinition { name: text("Color"), values: texts(&["A", "B", "C"]) }
}

fn point() -> RecordDefinition {
    RecordDefinition {
        name: text("Point"),
        fields: vec![slot("x", TypeReference::Double), slot("y", TypeReference::Double)],
    }
}

fn segment() -> RecordDefinition {
    RecordDefinition {
        name: text("Segment"),
        fields: vec![slot("start", point_type()), slot("length", TypeReference::Double)],
    }
}

fn distance() -> FunctionDefinition {
    FunctionDefinition {
        name: text("distance"),
        arguments: vec![slot("a", point_type()), slot("b", point_type())],
        return_type: Some(TypeReference::Double),
        ffi_func: entry_point(
            "geometry_distance",
            vec![slot("a", point_type()), slot("b", point_type())],
            Some(TypeReference::Double),
        ),
    }
}

fn paint() -> FunctionDefinition {
    FunctionDefinition {
        name: text("paint"),
        arguments: vec![
            slot("color", color_type()),
            slot("depth", TypeReference::U32),
            slot("corner", optional(point_type())),
        ],
        return_type: None,
        ffi_func: entry_point(
            "geometry_paint",
            vec![
                slot("color", color_type()),
                slot("depth", TypeReference::U32),
                slot("corner", optional(point_type())),
            ],
            None,
        ),
    }
}

fn canvas_new() -> FunctionDefinition {
    FunctionDefinition {
        name: text("new"),
        arguments: vec![slot("width", TypeReference::U32)],
        return_type: Some(canvas_type()),
        ffi_func: entry_point(
            "geometry_Canvas_new",
            vec![slot("width", TypeReference::U32)],
            Some(canvas_type()),
        ),
    }
}

fn canvas_corner() -> FunctionDefinition {
    FunctionDefinition {
        name: text("corner"),
        arguments: vec![slot("which", color_type())],
        return_type: Some(optional(point_type())),
        ffi_func: entry_point(
            "geometry_Canvas_corner",
            vec![slot("handle", canvas_type()), slot("which", color_type())],
            Some(optional(point_type())),
        ),
    }
}

fn canvas() -> ObjectDefinition {
    ObjectDefinition {
        name: text("Canvas"),
        constructors: vec![canvas_new()],
        methods: vec![canvas_corner()],
    }
}

fn geometry() -> ComponentInterface {
    ComponentInterface {
        namespace: text("geometry"),
        enums: vec![colors()],
        records: vec![point(), segment()],
        functions: vec![distance(), paint()],
        objects: vec![canvas()],
        ffi_bytebuffer_alloc: entry_point(
            "geometry_bytebuffer_alloc",
            vec![slot("size", TypeReference::U32)],
            Some(TypeReference::Bytes),
        ),
        ffi_bytebuffer_free: entry_point(
            "geometry_bytebuffer_free",
            vec![slot("buf", TypeReference::Bytes)],
            None,
        ),
    }
}

fn expected_point() -> RecordType {
    RecordType {
        name: text("Point"),
        fields: texts(&["x", "y"]),
        lift_from: texts(&["buf.getDouble()", "buf.getDouble()"]),
        lowers_into_size: texts(&["8", "8"]),
        lower_into: texts(&["buf.putDouble((v.x))", "buf.putDouble((v.y))"]),
    }
}

fn expected_segment() -> RecordType {
    RecordType {
        name: text("Segment"),
        fields: texts(&["start", "length"]),
        lift_from: texts(&["Point._liftFrom(buf)", "buf.getDouble()"]),
        lowers_into_size: texts(&["Point._lowersIntoSize((v.start))", "8"]),
        lower_into: texts(&["Point._lowerInto((v.start), buf)", "buf.putDouble((v.length))"]),
    }
}

fn expected_distance() -> FunctionBinding {
    FunctionBinding {
        name: text("distance"),
        parameters: texts(&["a", "b"]),
        coercions: texts(&["a = Point._coerce(a)", "b = Point._coerce(b)"]),
        entry_point: text("geometry_distance"),
        lowered_arguments: texts(&["Point._lower(a)", "Point._lower(b)"]),
        lifted_result: Some(text("_retval")),
    }
}

fn expected_canvas() -> ObjectType {
    ObjectType {
        name: text("Canvas"),
        constructor: FunctionBinding {
            name: text("new"),
            parameters: texts(&["width"]),
            coercions: texts(&["width = width"]),
            entry_point: text("geometry_Canvas_new"),
            lowered_arguments: texts(&["width"]),
            lifted_result: None,
        },
        methods: vec![FunctionBinding {
            name: text("corner"),
            parameters: texts(&["which"]),
            coercions: texts(&["which = Color(which)"]),
            entry_point: text("geometry_Canvas_corner"),
            lowered_arguments: texts(&["self._handle", "which.value"]),
            lifted_result: Some(text("liftOptional(_retval, lambda buf: Point._liftFrom(buf))")),
        }],
    }
}

fn unsupported<T>(type_: TypeReference) -> Result<T, GenerationError> {
    Err(GenerationError::UnsupportedType(type_))
}

#[test]
fn each_rule_is_applied_with_the_names_of_its_place() {
    let field = slot("x", TypeReference::Double);
    assert_eq!(apply(Rule::Declaration, &field), Ok(text("ctypes.c_double")));
    assert_eq!(apply(Rule::Coercion, &field), Ok(text("x = x")));
    assert_eq!(apply(Rule::Lowering, &field), Ok(text("x")));
    assert_eq!(apply(Rule::LiftingFrom, &field), Ok(text("buf.getDouble()")));
    assert_eq!(apply(Rule::SizeInBuffer, &field), Ok(text("8")));
    assert_eq!(apply(Rule::LoweringInto, &field), Ok(text("buf.putDouble((v.x))")));
    let nested = slot("origin", point_type());
    assert_eq!(apply(Rule::SizeInBuffer, &nested), Ok(text("Point._lowersIntoSize((v.origin))")));
    assert_eq!(apply(Rule::LoweringInto, &nested), Ok(text("Point._lowerInto((v.origin), buf)")));
    assert_eq!(apply(Rule::LiftingFrom, &nested), Ok(text("Point._liftFrom(buf)")));
}

#[test]
fn a_rule_is_applied_to_all_slots_in_order() {
    let slots = vec![slot("a", TypeReference::U32), slot("c", color_type()), slot("p", point_type())];
    assert_eq!(
        apply_to_all(Rule::Coercion, &slots),
        Ok(texts(&["a = a", "c = Color(c)", "p = Point._coerce(p)"]))
    );
    assert_eq!(
        apply_to_all(Rule::Declaration, &slots),
        Ok(texts(&["ctypes.c_uint32", "ctypes.c_uint32", "RustBuffer"]))
    );
    assert_eq!(apply_to_all(Rule::Lowering, &vec![]), Ok(vec![]));
}

#[test]
fn the_first_slot_that_a_rule_cannot_handle_is_named() {
    let slots = vec![
        slot("a", TypeReference::U32),
        slot("b", canvas_type()),
        slot("c", sequence_type()),
    ];
    assert_eq!(apply_to_all(Rule::Coercion, &slots), unsupported(canvas_type()));
    assert_eq!(apply_to_all(Rule::Declaration, &slots), unsupported(sequence_type()));
    assert_eq!(apply_to_all(Rule::LiftingFrom, &slots), unsupported(TypeReference::U32));
}

#[test]
fn an_entry_point_is_declared_with_the_types_of_its_arguments_and_result() {
    assert_eq!(
        declare(&distance().ffi_func),
        Ok(NativeDeclaration {
            name: text("geometry_distance"),
            argtypes: texts(&["RustBuffer", "RustBuffer"]),
            restype: Some(text("ctypes.c_double")),
        })
    );
    assert_eq!(
        declare(&canvas_corner().ffi_func),
        Ok(NativeDeclaration {
            name: text("geometry_Canvas_corner"),
            argtypes: texts(&["ctypes.c_uint64", "ctypes.c_uint32"]),
            restype: Some(text("RustBuffer")),
        })
    );
    assert_eq!(
        declare(&paint().ffi_func),
        Ok(NativeDeclaration {
            name: text("geometry_paint"),
            argtypes: texts(&["ctypes.c_uint32", "ctypes.c_uint32", "RustBuffer"]),
            restype: None,
        })
    );
}

#[test]
fn an_entry_point_with_an_unsupported_type_is_not_declared() {
    let bad_argument = entry_point("f", vec![slot("xs", sequence_type())], None);
    assert_eq!(declare(&bad_argument), unsupported(sequence_type()));
    let bad_result = entry_point("g", vec![], Some(sequence_type()));
    assert_eq!(declare(&bad_result), unsupported(sequence_type()));
}

#[test]
fn enum_variants_get_the_ordinals_one_two_three() {
    assert_eq!(
        enum_type(&colors()),
        EnumType {
            name: text("Color"),
            variants: vec![
                EnumVariant { name: text("A"), ordinal: 1 },
                EnumVariant { name: text("B"), ordinal: 2 },
                EnumVariant { name: text("C"), ordinal: 3 },
            ],
        }
    );
    assert_eq!(
        enum_type(&EnumDefinition { name: text("Empty"), values: vec![] }),
        EnumType { name: text("Empty"), variants: vec![] }
    );
}

#[test]
fn a_record_type_carries_the_codec_of_each_field_in_declared_order() {
    assert_eq!(record_type(&point()), Ok(expected_point()));
    assert_eq!(record_type(&segment()), Ok(expected_segment()));
}

#[test]
fn a_record_with_a_field_that_has_no_place_in_a_buffer_is_not_built() {
    let tagged = RecordDefinition {
        name: text("Tagged"),
        fields: vec![slot("x", TypeReference::Double), slot("tag", optional(TypeReference::Double))],
    };
    assert_eq!(record_type(&tagged), unsupported(optional(TypeReference::Double)));
    let counted = RecordDefinition {
        name: text("Counted"),
        fields: vec![slot("count", TypeReference::U32)],
    };
    assert_eq!(record_type(&counted), unsupported(TypeReference::U32));
}

#[test]
fn a_function_coerces_lowers_calls_and_lifts() {
    assert_eq!(binding(Calling::Function, &distance()), Ok(expected_distance()));
    let mut mixed = paint();
    mixed.arguments.pop();
    assert_eq!(
        binding(Calling::Function, &mixed),
        Ok(FunctionBinding {
            name: text("paint"),
            parameters: texts(&["color", "depth"]),
            coercions: texts(&["color = Color(color)", "depth = depth"]),
            entry_point: text("geometry_paint"),
            lowered_arguments: texts(&["color.value", "depth"]),
            lifted_result: None,
        })
    );
}

#[test]
fn an_optional_argument_has_no_coercion() {
    assert_eq!(binding(Calling::Function, &paint()), unsupported(optional(point_type())));
}

#[test]
fn a_function_without_a_result_lifts_nothing() {
    let mut quiet = distance();
    quiet.return_type = None;
    let mut expected = expected_distance();
    expected.lifted_result = None;
    assert_eq!(binding(Calling::Function, &quiet), Ok(expected));
}

#[test]
fn a_constructor_keeps_the_handle_as_it_is() {
    assert_eq!(binding(Calling::Constructor, &canvas_new()), Ok(expected_canvas().constructor));
}

#[test]
fn a_method_passes_the_handle_first() {
    let built = binding(Calling::Method, &canvas_corner()).unwrap();
    assert_eq!(built.lowered_arguments, texts(&["self._handle", "which.value"]));
    assert_eq!(built.parameters, texts(&["which"]));
    let no_arguments = FunctionDefinition {
        name: text("clear"),
        arguments: vec![],
        return_type: None,
        ffi_func: entry_point("geometry_Canvas_clear", vec![slot("handle", canvas_type())], None),
    };
    assert_eq!(
        binding(Calling::Method, &no_arguments).unwrap().lowered_arguments,
        texts(&["self._handle"])
    );
}

#[test]
fn a_function_with_an_unsupported_type_is_not_bound() {
    let mut takes_object = distance();
    takes_object.arguments = vec![slot("c", canvas_type())];
    assert_eq!(binding(Calling::Function, &takes_object), unsupported(canvas_type()));
    let mut returns_bytes = distance();
    returns_bytes.return_type = Some(TypeReference::Bytes);
    assert_eq!(binding(Calling::Function, &returns_bytes), unsupported(TypeReference::Bytes));
    assert_eq!(binding(Calling::Function, &canvas_new()), unsupported(canvas_type()));
}

#[test]
fn an_object_has_one_constructor_and_its_methods() {
    assert_eq!(object_type(&canvas()), Ok(expected_canvas()));
}

#[test]
fn an_object_without_exactly_one_constructor_is_not_built() {
    let mut none = canvas();
    none.constructors = vec![];
    assert_eq!(
        object_type(&none),
        Err(GenerationError::UnsupportedConstructorArity { object: text("Canvas"), count: 0 })
    );
    let mut two = canvas();
    two.constructors = vec![canvas_new(), canvas_new()];
    assert_eq!(
        object_type(&two),
        Err(GenerationError::UnsupportedConstructorArity { object: text("Canvas"), count: 2 })
    );
}

#[test]
fn an_object_with_an_unsupported_method_is_not_built() {
    let mut broken = canvas();
    let mut method = canvas_corner();
    method.arguments = vec![slot("xs", sequence_type())];
    broken.methods.push(method);
    assert_eq!(object_type(&broken), unsupported(sequence_type()));
}

#[test]
fn the_exports_name_enums_records_functions_and_objects_in_that_order() {
    assert_eq!(
        export_list(&geometry()),
        texts(&["Color", "Point", "Segment", "distance", "paint", "Canvas"])
    );
}

#[test]
fn constructs_come_out_in_the_fixed_order() {
    let mut ci = geometry();
    ci.functions = vec![distance()];
    let constructs = emit(&ci).unwrap();
    assert_eq!(constructs.len(), 5 + 1 + 2 + 1 + 1 + 1);
    let declared: Vec<&str> = constructs[..5]
        .iter()
        .map(|construct| match construct {
            Construct::NativeDeclaration(declaration) => declaration.name.as_str(),
            other => panic!("a declaration must come first, not {:?}", other),
        })
        .collect();
    assert_eq!(
        declared,
        vec![
            "geometry_distance",
            "geometry_Canvas_new",
            "geometry_Canvas_corner",
            "geometry_bytebuffer_alloc",
            "geometry_bytebuffer_free",
        ]
    );
    assert_eq!(constructs[5], Construct::EnumType(enum_type(&colors())));
    assert_eq!(constructs[6], Construct::RecordType(expected_point()));
    assert_eq!(constructs[7], Construct::RecordType(expected_segment()));
    assert_eq!(constructs[8], Construct::Function(expected_distance()));
    assert_eq!(constructs[9], Construct::ObjectType(expected_canvas()));
    assert_eq!(
        constructs[10],
        Construct::ExportList(texts(&["Color", "Point", "Segment", "distance", "Canvas"]))
    );
}

#[test]
fn the_buffer_entry_points_are_declared_too() {
    let mut ci = geometry();
    ci.functions = vec![];
    ci.objects = vec![];
    let constructs = emit(&ci).unwrap();
    assert_eq!(
        constructs[0],
        Construct::NativeDeclaration(NativeDeclaration {
            name: text("geometry_bytebuffer_alloc"),
            argtypes: texts(&["ctypes.c_uint32"]),
            restype: Some(text("RustBuffer")),
        })
    );
    assert_eq!(
        constructs[1],
        Construct::NativeDeclaration(NativeDeclaration {
            name: text("geometry_bytebuffer_free"),
            argtypes: texts(&["RustBuffer"]),
            restype: None,
        })
    );
}

#[test]
fn an_empty_interface_emits_two_declarations_and_an_empty_export_list() {
    let ci = ComponentInterface {
        namespace: text("nothing"),
        enums: vec![],
        records: vec![],
        functions: vec![],
        objects: vec![],
        ffi_bytebuffer_alloc: entry_point("alloc", vec![], None),
        ffi_bytebuffer_free: entry_point("free", vec![], None),
    };
    let constructs = emit(&ci).unwrap();
    assert_eq!(constructs.len(), 3);
    assert_eq!(constructs[2], Construct::ExportList(vec![]));
}

#[test]
fn emission_is_the_same_on_every_run() {
    let mut ci = geometry();
    ci.functions = vec![distance()];
    assert_eq!(emit(&ci), emit(&ci));
    let mut again = geometry();
    again.functions = vec![distance()];
    assert_eq!(emit(&ci), emit(&again));
}

#[test]
fn one_unsupported_type_aborts_the_whole_emission() {
    assert_eq!(emit(&geometry()), unsupported(optional(point_type())));
    let mut late = geometry();
    late.functions = vec![distance()];
    late.objects[0].methods[0].return_type = Some(sequence_type());
    assert_eq!(emit(&late), unsupported(sequence_type()));
    let mut early = geometry();
    early.functions = vec![distance()];
    early.ffi_bytebuffer_free.arguments = vec![slot("buf", sequence_type())];
    assert_eq!(emit(&early), unsupported(sequence_type()));
    let mut record = geometry();
    record.functions = vec![distance()];
    record.records[1].fields.push(slot("mark", TypeReference::Boolean));
    assert_eq!(emit(&record), unsupported(TypeReference::Boolean));
}

#[test]
fn an_object_with_two_constructors_aborts_the_whole_emission() {
    let mut ci = geometry();
    ci.functions = vec![distance()];
    ci.objects[0].constructors.push(canvas_new());
    assert_eq!(
        emit(&ci),
        Err(GenerationError::UnsupportedConstructorArity { object: text("Canvas"), count: 2 })
    );
}

#[test]
fn the_first_failure_in_emission_order_is_reported() {
    let mut ci = geometry();
    ci.functions = vec![distance()];
    ci.records[0].fields.push(slot("flag", TypeReference::Boolean));
    ci.objects[0].constructors.clear();
    assert_eq!(emit(&ci), unsupported(TypeReference::Boolean));
}

#[test]
fn the_wrapper_emits_the_constructs_of_its_interface() {
    let mut ci = geometry();
    ci.functions = vec![distance()];
    let wrapper = PythonWrapper::new(Config::from(&ci), &ci);
    assert_eq!(wrapper.config(), Config {});
    assert_eq!(wrapper.ci(), &ci);
    assert_eq!(wrapper.constructs(), emit(&ci));
    let broken = geometry();
    let wrapper = PythonWrapper::new(Config::from(&broken), &broken);
    assert_eq!(wrapper.constructs(), unsupported(optional(point_type())));
}
