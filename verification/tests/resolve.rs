use pybindgen::codec::{Packed, PackedLayout, Record, RecordLayout};
use pybindgen::error::GenerationError;
use pybindgen::interface::{
    ComponentInterface, EnumDefinition, FfiFunction, Field, RecordDefinition, TypeReference,
};
use pybindgen::marshal::{Layout, Value};
use pybindgen::type_mapper::{lift_py, lower_py, native_declaration_type};

fn text(value: &str) -> String {
    value.to_string()
}

fn slot(name: &str, type_: TypeReference) -> Field {
    Field { name: text(name), type_ }
}

fn record_type(name: &str) -> TypeReference {
    TypeReference::Record(text(name))
}

fn optional(inner: TypeReference) -> TypeReference {
    TypeReference::Optional(Box::new(inner))
}

fn record(name: &str, fields: Vec<Field>) -> RecordDefinition {
    RecordDefinition { name: text(name), fields }
}

fn interface(enums: Vec<EnumDefinition>, records: Vec<RecordDefinition>) -> ComponentInterface {
    ComponentInterface {
        namespace: text("geometry"),
        enums,
        records,
        functions: vec![],
        objects: vec![],
        ffi_bytebuffer_alloc: FfiFunction { name: text("alloc"), arguments: vec![], return_type: None },
        ffi_bytebuffer_free: FfiFunction { name: text("free"), arguments: vec![], return_type: None },
    }
}

fn geometry() -> ComponentInterface {
    interface(
        vec![EnumDefinition { name: text("Color"), values: vec![text("A"), text("B"), text("C")] }],
        vec![
            record(
                "Segment",
                vec![slot("from", record_type("Point")), slot("to", record_type("Point"))],
            ),
            record(
                "Point",
                vec![slot("x", TypeReference::Double), slot("y", TypeReference::Double)],
            ),
            record("Tagged", vec![slot("tag", optional(TypeReference::Double))]),
            record("Counted", vec![slot("count", TypeReference::U32)]),
            record("Loop", vec![slot("again", record_type("Loop"))]),
            record("Ping", vec![slot("pong", record_type("Pong"))]),
            record("Pong", vec![slot("ping", record_type("Ping"))]),
            record("Dangling", vec![slot("missing", record_type("Nowhere"))]),
        ],
    )
}

fn point_layout() -> RecordLayout {
    RecordLayout { fields: vec![PackedLayout::Double, PackedLayout::Double] }
}

fn unsupported(type_: TypeReference) -> Result<Layout, GenerationError> {
    Err(GenerationError::UnsupportedType(type_))
}

#[test]
fn scalars_resolve_to_themselves() {
    let ci = geometry();
    assert_eq!(ci.layout(&TypeReference::U32), Ok(Layout::U32));
    assert_eq!(ci.layout(&TypeReference::U64), Ok(Layout::U64));
    assert_eq!(ci.layout(&TypeReference::Float), Ok(Layout::Float));
    assert_eq!(ci.layout(&TypeReference::Double), Ok(Layout::Double));
    assert_eq!(ci.layout(&TypeReference::Boolean), Ok(Layout::Boolean));
}

#[test]
fn an_enum_resolves_to_the_number_of_its_variants() {
    let ci = geometry();
    assert_eq!(ci.layout(&TypeReference::Enum(text("Color"))), Ok(Layout::Enum(3)));
    assert_eq!(
        ci.layout(&TypeReference::Enum(text("Shade"))),
        unsupported(TypeReference::Enum(text("Shade")))
    );
}

#[test]
fn a_record_resolves_to_the_layouts_of_its_fields() {
    let ci = geometry();
    assert_eq!(ci.layout(&record_type("Point")), Ok(Layout::Record(point_layout())));
    assert_eq!(
        ci.layout(&record_type("Segment")),
        Ok(Layout::Record(RecordLayout {
            fields: vec![
                PackedLayout::Record(point_layout()),
                PackedLayout::Record(point_layout())
            ]
        }))
    );
}

#[test]
fn an_optional_resolves_to_the_layout_of_its_inner_type() {
    let ci = geometry();
    assert_eq!(
        ci.layout(&optional(TypeReference::Double)),
        Ok(Layout::Optional(PackedLayout::Double))
    );
    assert_eq!(
        ci.layout(&optional(record_type("Point"))),
        Ok(Layout::Optional(PackedLayout::Record(point_layout())))
    );
}

#[test]
fn what_has_no_place_in_a_buffer_is_named() {
    let ci = geometry();
    assert_eq!(ci.layout(&optional(TypeReference::U32)), unsupported(TypeReference::U32));
    assert_eq!(
        ci.layout(&optional(optional(TypeReference::Double))),
        unsupported(optional(TypeReference::Double))
    );
    assert_eq!(ci.layout(&record_type("Tagged")), unsupported(optional(TypeReference::Double)));
    assert_eq!(ci.layout(&record_type("Counted")), unsupported(TypeReference::U32));
}

#[test]
fn kinds_without_a_marshaling_rule_do_not_resolve() {
    let ci = geometry();
    let kinds = vec![
        TypeReference::Bytes,
        TypeReference::Object(text("Canvas")),
        TypeReference::Sequence(Box::new(TypeReference::Double)),
        TypeReference::Mapping(Box::new(TypeReference::Double)),
    ];
    for kind in kinds {
        assert_eq!(ci.layout(&kind), Err(GenerationError::UnsupportedType(kind.duplicate())));
    }
}

#[test]
fn a_name_without_a_definition_does_not_resolve() {
    let ci = geometry();
    assert_eq!(ci.layout(&record_type("Nowhere")), unsupported(record_type("Nowhere")));
    assert_eq!(ci.layout(&record_type("Dangling")), unsupported(record_type("Nowhere")));
}

#[test]
fn a_record_that_contains_itself_does_not_resolve() {
    let ci = geometry();
    assert_eq!(ci.layout(&record_type("Loop")), unsupported(record_type("Loop")));
    assert!(ci.layout(&record_type("Ping")).is_err());
    assert!(ci.layout(&optional(record_type("Pong"))).is_err());
}

#[test]
fn records_may_nest_as_deep_as_there_are_definitions() {
    let ci = interface(
        vec![],
        vec![
            record("A", vec![slot("b", record_type("B"))]),
            record("B", vec![slot("c", record_type("C"))]),
            record("C", vec![slot("d", TypeReference::Double)]),
        ],
    );
    let c = RecordLayout { fields: vec![PackedLayout::Double] };
    let b = RecordLayout { fields: vec![PackedLayout::Record(c)] };
    let a = RecordLayout { fields: vec![PackedLayout::Record(b)] };
    assert_eq!(ci.layout(&record_type("A")), Ok(Layout::Record(a)));
}

#[test]
fn a_resolved_type_is_covered_by_the_type_mapper() {
    let ci = geometry();
    let types = vec![
        TypeReference::U32,
        TypeReference::Boolean,
        TypeReference::Enum(text("Color")),
        record_type("Segment"),
        optional(record_type("Point")),
        optional(TypeReference::Double),
    ];
    for type_ in types {
        let layout = ci.layout(&type_).unwrap();
        assert_eq!(native_declaration_type(&type_), Ok(layout.declaration()));
        assert!(lower_py("x", &type_).is_ok());
        assert!(lift_py("x", &type_).is_ok());
    }
}

#[test]
fn values_round_trip_through_resolved_layouts() {
    let ci = geometry();
    let point = |x: f64, y: f64| Record {
        fields: vec![Packed::Double(x.to_bits()), Packed::Double(y.to_bits())],
    };
    let cases = vec![
        (TypeReference::Enum(text("Color")), Value::Enum(3)),
        (record_type("Point"), Value::Record(point(1.5, 2.5))),
        (
            record_type("Segment"),
            Value::Record(Record {
                fields: vec![Packed::Record(point(0.0, 1.0)), Packed::Record(point(2.0, 3.0))],
            }),
        ),
        (optional(TypeReference::Double), Value::Optional(None)),
        (optional(record_type("Point")), Value::Optional(Some(Packed::Record(point(4.0, 5.0))))),
    ];
    for (type_, value) in cases {
        let layout = ci.layout(&type_).unwrap();
        assert!(layout.admits(&value));
        let lowered = value.lower().unwrap();
        assert!(lowered.fits(&layout));
        assert_eq!(layout.lift(lowered), Ok(value));
    }
}
